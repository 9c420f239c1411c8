//! Level maps as text: one line per row of tiles, `E` for an empty tile,
//! `O` for a one-way platform, `B` for a block; other characters are
//! skipped.
use vstd::prelude::*;
use crate::map::TileType;

verus! {

/// The tiles a character of a map line stands for.
pub open spec fn tiles_of(c: u8) -> Seq<TileType> {
    if c == 69u8 {
        seq![TileType::Empty]
    } else if c == 79u8 {
        seq![TileType::OneWay]
    } else if c == 66u8 {
        seq![TileType::Block]
    } else {
        seq![]
    }
}

/// The finished rows and the row in progress after reading `s`.
pub open spec fn scan_rows(s: Seq<u8>) -> (Seq<Seq<TileType>>, Seq<TileType>)
    decreases s.len(),
{
    if s.len() == 0 {
        (seq![], seq![])
    } else {
        let (rows, row) = scan_rows(s.drop_last());
        if s.last() == 10u8 {
            (rows.push(row), seq![])
        } else {
            (rows, row + tiles_of(s.last()))
        }
    }
}

/// The rows of a map text: its lines, split at line feeds, a last line
/// without a line feed included.
pub open spec fn map_rows(s: Seq<u8>) -> Seq<Seq<TileType>> {
    let (rows, row) = scan_rows(s);
    if s.len() > 0 && s.last() != 10u8 {
        rows.push(row)
    } else {
        rows
    }
}

/// Finds level maps under an assets directory.
pub struct MapLoader {
    pub assets_path: String,
}

impl MapLoader {
    pub fn new(assets_path: String) -> (r: MapLoader)
        ensures
            r.assets_path@ == assets_path@,
    {
        MapLoader { assets_path }
    }

    /// The tile rows of the UTF-8 text of a map.
    pub fn parse_map(&self, content: &[u8]) -> (r: Vec<Vec<TileType>>)
        ensures
            r@.len() == map_rows(content@).len(),
            forall|y: int| 0 <= y < r@.len() ==> (#[trigger] r@[y])@ == map_rows(content@)[y],
    {
        let mut rows: Vec<Vec<TileType>> = Vec::new();
        let mut row: Vec<TileType> = Vec::new();
        let mut i: usize = 0;
        while i < content.len()
            invariant
                i <= content@.len(),
                rows@.len() == scan_rows(content@.subrange(0, i as int)).0.len(),
                forall|y: int| 0 <= y < rows@.len() ==> (#[trigger] rows@[y])@ == scan_rows(content@.subrange(0, i as int)).0[y],
                row@ == scan_rows(content@.subrange(0, i as int)).1,
            decreases content@.len() - i,
        {
            let c = content[i];
            proof {
                assert(content@.subrange(0, i + 1).drop_last() == content@.subrange(0, i as int));
                assert(content@.subrange(0, i + 1).last() == c);
            }
            if c == 10u8 {
                rows.push(row);
                row = Vec::new();
            } else if c == 69u8 {
                row.push(TileType::Empty);
            } else if c == 79u8 {
                row.push(TileType::OneWay);
            } else if c == 66u8 {
                row.push(TileType::Block);
            }
            proof {
                let prev = scan_rows(content@.subrange(0, i as int));
                if c != 10u8 {
                    assert(row@ == prev.1 + tiles_of(c));
                }
            }
            i = i + 1;
        }
        proof {
            assert(content@.subrange(0, content@.len() as int) == content@);
        }
        if content.len() > 0 && content[content.len() - 1] != 10u8 {
            rows.push(row);
        }
        rows
    }
}

} // verus!
