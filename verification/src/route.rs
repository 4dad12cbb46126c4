//! Routing: which resource a request path names.
//!
//! Two kinds of path are known. `/flora` names the day counter. A path of the form
//! `/fractal/{name}/{column}/{row}/{zoom}.png` names a tile, where `{name}` is the name of a
//! fractal and the three numbers are written in decimal digits. Every other path names
//! nothing.

use vstd::prelude::*;
use vstd::slice::slice_subrange;
use crate::request::{FractalKind, TileAddress, JULIA_NAME, MANDELBROT_NAME};
use crate::text::{
    decimal_value, find_byte, first_at, is_decimal, parse_decimal, same_bytes, PLUS,
};

verus! {

/// The byte that separates the parts of a path.
pub const SLASH: u8 = 47;

/// The path of the day counter, `/flora`.
pub const FLORA_PATH: [u8; 6] = [47, 102, 108, 111, 114, 97];

/// What every tile path starts with, `/fractal/`.
pub const FRACTAL_PREFIX: [u8; 9] = [47, 102, 114, 97, 99, 116, 97, 108, 47];

/// What every tile path ends with, `.png`.
pub const PNG_SUFFIX: [u8; 4] = [46, 112, 110, 103];

/// The edge of a tile, in pixels, where the request names none.
pub const DEFAULT_EDGE_SIZE: usize = 256;

/// The number of steps that tiles are rendered with.
pub const DEFAULT_MAX_ITERATIONS: usize = 256;

/// The resource that a path names.
#[derive(Clone, Copy, Debug, PartialEq, Eq, Structural)]
pub enum Route {
    /// The day counter.
    DaysCounter,
    /// A tile of a fractal. The address is as written in the path: it may lie outside the
    /// grid of its zoom level.
    Fractal { kind: FractalKind, tile: TileAddress },
    /// Nothing.
    NotFound,
}

/// The path that names a tile: `/fractal/`, the name, and the three numbers, with a slash
/// between each two of them and `.png` at the end.
pub open spec fn tile_path(name: Seq<u8>, column: Seq<u8>, row: Seq<u8>, zoom: Seq<u8>) -> Seq<u8> {
    FRACTAL_PREFIX@ + name + seq![SLASH] + column + seq![SLASH] + row + seq![SLASH] + zoom
        + PNG_SUFFIX@
}

/// The path is the tile path of a known fractal and of three decimal numbers, which are the
/// column, the row and the zoom level of `tile`.
pub open spec fn addresses(path: Seq<u8>, kind: FractalKind, tile: TileAddress) -> bool {
    exists|name: Seq<u8>, column: Seq<u8>, row: Seq<u8>, zoom: Seq<u8>|
        #![trigger tile_path(name, column, row, zoom)]
        spells(path, kind, tile, name, column, row, zoom)
}

/// The path is the tile path of these four parts, and the parts are the name of `kind` and
/// the numbers of `tile`.
pub open spec fn spells(
    path: Seq<u8>,
    kind: FractalKind,
    tile: TileAddress,
    name: Seq<u8>,
    column: Seq<u8>,
    row: Seq<u8>,
    zoom: Seq<u8>,
) -> bool {
    &&& path == tile_path(name, column, row, zoom)
    &&& FractalKind::named(name) == Some(kind)
    &&& is_decimal(column)
    &&& is_decimal(row)
    &&& is_decimal(zoom)
    &&& decimal_value(column) == tile.column
    &&& decimal_value(row) == tile.row
    &&& decimal_value(zoom) == tile.zoom
}

/// `route` is the resource that the path names.
pub open spec fn routed(path: Seq<u8>, route: Route) -> bool {
    match route {
        Route::DaysCounter => path == FLORA_PATH@,
        Route::Fractal { kind, tile } => addresses(path, kind, tile),
        Route::NotFound => path != FLORA_PATH@ && forall|kind: FractalKind, tile: TileAddress|
            !addresses(path, kind, tile),
    }
}

/// Where the parts of a tile path lie in it.
proof fn lemma_tile_path_layout(name: Seq<u8>, column: Seq<u8>, row: Seq<u8>, zoom: Seq<u8>)
    ensures
        ({
            let path = tile_path(name, column, row, zoom);
            let name_end: int = 9 + (name.len() as int);
            let column_end: int = name_end + 1 + column.len();
            let row_end: int = column_end + 1 + row.len();
            let zoom_end: int = row_end + 1 + zoom.len();
            &&& path.len() == zoom_end + 4
            &&& path.subrange(0, 9) == FRACTAL_PREFIX@
            &&& path.subrange(9, name_end) == name
            &&& path[name_end] == SLASH
            &&& path.subrange(name_end + 1, column_end) == column
            &&& path[column_end] == SLASH
            &&& path.subrange(column_end + 1, row_end) == row
            &&& path[row_end] == SLASH
            &&& path.subrange(row_end + 1, zoom_end) == zoom
            &&& path.subrange(zoom_end, zoom_end + 4) == PNG_SUFFIX@
        }),
{
    let path = tile_path(name, column, row, zoom);
    let name_end: int = 9 + (name.len() as int);
    let column_end: int = name_end + 1 + column.len();
    let row_end: int = column_end + 1 + row.len();
    let zoom_end: int = row_end + 1 + zoom.len();
    assert(FRACTAL_PREFIX@.len() == 9);
    assert(PNG_SUFFIX@.len() == 4);
    assert(path.subrange(0, 9) =~= FRACTAL_PREFIX@);
    assert(path.subrange(9, name_end) =~= name);
    assert(path.subrange(name_end + 1, column_end) =~= column);
    assert(path.subrange(column_end + 1, row_end) =~= row);
    assert(path.subrange(row_end + 1, zoom_end) =~= zoom);
    assert(path.subrange(zoom_end, zoom_end + 4) =~= PNG_SUFFIX@);
}

/// No name of a fractal holds a slash, and each has at least one byte.
proof fn lemma_names_hold_no_slash(name: Seq<u8>)
    requires
        FractalKind::named(name) is Some,
    ensures
        name.len() > 0,
        forall|i: int| 0 <= i < name.len() ==> #[trigger] name[i] != SLASH,
{
    assert(MANDELBROT_NAME@.len() == 10);
    assert(JULIA_NAME@.len() == 5);
}

/// In a tile path the slashes found from the start of the name on are those that end the
/// name, the column and the row, and what follows the row is the zoom level and `.png`.
proof fn lemma_tile_path_found(
    path: Seq<u8>,
    kind: FractalKind,
    tile: TileAddress,
    name: Seq<u8>,
    column: Seq<u8>,
    row: Seq<u8>,
    zoom: Seq<u8>,
    name_end: int,
    column_end: int,
    row_end: int,
)
    requires
        spells(path, kind, tile, name, column, row, zoom),
        first_at(path, SLASH, 9, name_end),
        first_at(path, SLASH, if name_end < path.len() { name_end + 1 } else { path.len() as int }, column_end),
        first_at(path, SLASH, if column_end < path.len() { column_end + 1 } else { path.len() as int }, row_end),
    ensures
        path.len() >= 13,
        path.subrange(0, 9) == FRACTAL_PREFIX@,
        name_end == 9 + name.len(),
        column_end == name_end + 1 + column.len(),
        row_end == column_end + 1 + row.len(),
        path.len() == row_end + 1 + zoom.len() + 4,
        path.subrange(9, name_end) == name,
        path.subrange(name_end + 1, column_end) == column,
        path.subrange(column_end + 1, row_end) == row,
        path.subrange(row_end + 1, path.len() - 4) == zoom,
        path.subrange(path.len() - 4, path.len() as int) == PNG_SUFFIX@,
{
    lemma_tile_path_layout(name, column, row, zoom);
    lemma_names_hold_no_slash(name);
    let a: int = 9 + (name.len() as int);
    let b: int = a + 1 + column.len();
    let c: int = b + 1 + row.len();
    // the name ends at the first slash after the prefix
    assert forall|i: int| 9 <= i < a implies path[i] != SLASH by {
        assert(path[i] == path.subrange(9, a)[i - 9]);
    }
    assert(name_end == a);
    assert forall|i: int| a + 1 <= i < b implies path[i] != SLASH by {
        assert(path[i] == path.subrange(a + 1, b)[i - (a + 1)]);
    }
    assert(column_end == b);
    assert forall|i: int| b + 1 <= i < c implies path[i] != SLASH by {
        assert(path[i] == path.subrange(b + 1, c)[i - (b + 1)]);
    }
    assert(row_end == c);
}

/// The three slashes found after the prefix leave room for a tile path: the prefix and the
/// ending are in place, and each slash was found.
spec fn framed(path: Seq<u8>, name_end: int, column_end: int, row_end: int) -> bool {
    &&& path.len() >= 13
    &&& path.subrange(0, 9) == FRACTAL_PREFIX@
    &&& name_end < path.len()
    &&& column_end < path.len()
    &&& row_end < path.len()
    &&& path.len() - row_end >= 5
    &&& path.subrange(path.len() - 4, path.len() as int) == PNG_SUFFIX@
}

/// The slashes found in `path` from the start of the name on.
spec fn slashes_found(path: Seq<u8>, name_end: int, column_end: int, row_end: int) -> bool {
    &&& first_at(path, SLASH, 9, name_end)
    &&& first_at(
        path,
        SLASH,
        if name_end < path.len() {
            name_end + 1
        } else {
            path.len() as int
        },
        column_end,
    )
    &&& first_at(
        path,
        SLASH,
        if column_end < path.len() {
            column_end + 1
        } else {
            path.len() as int
        },
        row_end,
    )
}

/// A path of fewer than thirteen bytes is no tile path.
proof fn lemma_short_path_addresses_nothing(path: Seq<u8>)
    requires
        path.len() < 13,
    ensures
        forall|kind: FractalKind, tile: TileAddress| !addresses(path, kind, tile),
{
    assert forall|kind: FractalKind, tile: TileAddress| !addresses(path, kind, tile) by {
        if addresses(path, kind, tile) {
            let (name, column, row, zoom) = choose|
                name: Seq<u8>,
                column: Seq<u8>,
                row: Seq<u8>,
                zoom: Seq<u8>,
            |
                #![trigger tile_path(name, column, row, zoom)]
                spells(path, kind, tile, name, column, row, zoom);
            lemma_tile_path_layout(name, column, row, zoom);
        }
    }
}

/// A path that addresses a tile is framed, and its parts between the slashes are the name
/// of the kind and the numbers of the tile.
proof fn lemma_addressed_path_is_read(
    path: Seq<u8>,
    kind: FractalKind,
    tile: TileAddress,
    name_end: int,
    column_end: int,
    row_end: int,
)
    requires
        addresses(path, kind, tile),
        slashes_found(path, name_end, column_end, row_end),
    ensures
        framed(path, name_end, column_end, row_end),
        FractalKind::named(path.subrange(9, name_end)) == Some(kind),
        is_decimal(path.subrange(name_end + 1, column_end)),
        is_decimal(path.subrange(column_end + 1, row_end)),
        is_decimal(path.subrange(row_end + 1, path.len() - 4)),
        decimal_value(path.subrange(name_end + 1, column_end)) == tile.column,
        decimal_value(path.subrange(column_end + 1, row_end)) == tile.row,
        decimal_value(path.subrange(row_end + 1, path.len() - 4)) == tile.zoom,
{
    let (name, column, row, zoom) = choose|
        name: Seq<u8>,
        column: Seq<u8>,
        row: Seq<u8>,
        zoom: Seq<u8>,
    |
        #![trigger tile_path(name, column, row, zoom)]
        spells(path, kind, tile, name, column, row, zoom);
    lemma_tile_path_found(
        path,
        kind,
        tile,
        name,
        column,
        row,
        zoom,
        name_end,
        column_end,
        row_end,
    );
}

/// A framed path is the tile path of its parts between the slashes.
proof fn lemma_framed_path_is_tile_path(path: Seq<u8>, name_end: int, column_end: int, row_end: int)
    requires
        slashes_found(path, name_end, column_end, row_end),
        framed(path, name_end, column_end, row_end),
    ensures
        path == tile_path(
            path.subrange(9, name_end),
            path.subrange(name_end + 1, column_end),
            path.subrange(column_end + 1, row_end),
            path.subrange(row_end + 1, path.len() - 4),
        ),
{
    let name = path.subrange(9, name_end);
    let column = path.subrange(name_end + 1, column_end);
    let row = path.subrange(column_end + 1, row_end);
    let zoom = path.subrange(row_end + 1, path.len() - 4);
    lemma_tile_path_layout(name, column, row, zoom);
    let made = tile_path(name, column, row, zoom);
    assert(made.len() == path.len());
    assert forall|i: int| 0 <= i < path.len() implies path[i] == made[i] by {
        if i < 9 {
            assert(path[i] == path.subrange(0, 9)[i]);
            assert(made[i] == made.subrange(0, 9)[i]);
        } else if i < name_end {
            assert(made[i] == made.subrange(9, name_end)[i - 9]);
        } else if i == name_end {
        } else if i < column_end {
            assert(made[i] == made.subrange(name_end + 1, column_end)[i - (name_end + 1)]);
        } else if i == column_end {
        } else if i < row_end {
            assert(made[i] == made.subrange(column_end + 1, row_end)[i - (column_end + 1)]);
        } else if i == row_end {
        } else if i < path.len() - 4 {
            assert(made[i] == made.subrange(row_end + 1, path.len() - 4)[i - (row_end + 1)]);
        } else {
            assert(path[i] == path.subrange(path.len() - 4, path.len() as int)[i - (path.len()
                - 4)]);
            assert(made[i] == made.subrange(path.len() - 4, path.len() as int)[i - (path.len()
                - 4)]);
        }
    }
    assert(path =~= made);
}

/// Reads a tile path.
fn tile_of_path(path: &[u8]) -> (found: Option<(FractalKind, TileAddress)>)
    ensures
        match found {
            Some((kind, tile)) => addresses(path@, kind, tile),
            None => forall|kind: FractalKind, tile: TileAddress| !addresses(path@, kind, tile),
        },
{
    let len = path.len();
    if len < 13 {
        proof {
            lemma_short_path_addresses_nothing(path@);
        }
        return None;
    }
    let name_end = find_byte(path, SLASH, 9);
    let column_from = if name_end < len { name_end + 1 } else { len };
    let column_end = find_byte(path, SLASH, column_from);
    let row_from = if column_end < len { column_end + 1 } else { len };
    let row_end = find_byte(path, SLASH, row_from);
    assert(slashes_found(path@, name_end as int, column_end as int, row_end as int));
    let in_frame = same_bytes(slice_subrange(path, 0, 9), &FRACTAL_PREFIX) && name_end < len
        && column_end < len && row_end < len && len - row_end >= 5 && same_bytes(
        slice_subrange(path, len - 4, len),
        &PNG_SUFFIX,
    );
    assert(in_frame == framed(path@, name_end as int, column_end as int, row_end as int));
    if !in_frame {
        proof {
            assert forall|kind: FractalKind, tile: TileAddress| !addresses(path@, kind, tile) by {
                if addresses(path@, kind, tile) {
                    lemma_addressed_path_is_read(
                        path@,
                        kind,
                        tile,
                        name_end as int,
                        column_end as int,
                        row_end as int,
                    );
                }
            }
        }
        return None;
    }
    let name = slice_subrange(path, 9, name_end);
    let column = slice_subrange(path, name_end + 1, column_end);
    let row = slice_subrange(path, column_end + 1, row_end);
    let zoom = slice_subrange(path, row_end + 1, len - 4);
    let kind = FractalKind::from_bytes(name);
    let column_number = parse_decimal(column);
    let row_number = parse_decimal(row);
    let zoom_number = parse_decimal(zoom);
    match (kind, column_number, row_number, zoom_number) {
        (Ok(kind), Some(column_number), Some(row_number), Some(zoom_number))
            if column_number <= i64::MAX as u64 && row_number <= i64::MAX as u64 && zoom_number
            <= i64::MAX as u64 => {
            let tile = TileAddress {
                column: column_number as i64,
                row: row_number as i64,
                zoom: zoom_number as i64,
            };
            proof {
                lemma_framed_path_is_tile_path(
                    path@,
                    name_end as int,
                    column_end as int,
                    row_end as int,
                );
                assert(spells(path@, kind, tile, name@, column@, row@, zoom@));
            }
            Some((kind, tile))
        },
        _ => {
            proof {
                assert forall|kind: FractalKind, tile: TileAddress| !addresses(
                    path@,
                    kind,
                    tile,
                ) by {
                    if addresses(path@, kind, tile) {
                        lemma_addressed_path_is_read(
                            path@,
                            kind,
                            tile,
                            name_end as int,
                            column_end as int,
                            row_end as int,
                        );
                    }
                }
            }
            None
        },
    }
}

/// A path names one resource only.
pub proof fn lemma_route_is_unique(path: Seq<u8>, one: Route, other: Route)
    requires
        routed(path, one),
        routed(path, other),
    ensures
        one == other,
{
    assert(FLORA_PATH@.len() == 6);
    if path == FLORA_PATH@ {
        lemma_short_path_addresses_nothing(path);
    }
    if let Route::Fractal { kind, tile } = one {
        if let Route::Fractal { kind: other_kind, tile: other_tile } = other {
            let (name, column, row, zoom) = choose|
                name: Seq<u8>,
                column: Seq<u8>,
                row: Seq<u8>,
                zoom: Seq<u8>,
            |
                #![trigger tile_path(name, column, row, zoom)]
                spells(path, kind, tile, name, column, row, zoom);
            lemma_tile_path_layout(name, column, row, zoom);
            lemma_names_hold_no_slash(name);
            let name_end: int = 9 + (name.len() as int);
            let column_end: int = name_end + 1 + column.len();
            let row_end: int = column_end + 1 + row.len();
            assert forall|i: int| 9 <= i < name_end implies path[i] != SLASH by {
                assert(path[i] == path.subrange(9, name_end)[i - 9]);
            }
            assert forall|i: int| name_end + 1 <= i < column_end implies path[i] != SLASH by {
                assert(path[i] == path.subrange(name_end + 1, column_end)[i - (name_end + 1)]);
            }
            assert forall|i: int| column_end + 1 <= i < row_end implies path[i] != SLASH by {
                assert(path[i] == path.subrange(column_end + 1, row_end)[i - (column_end + 1)]);
            }
            assert(slashes_found(path, name_end, column_end, row_end));
            lemma_addressed_path_is_read(path, kind, tile, name_end, column_end, row_end);
            lemma_addressed_path_is_read(
                path,
                other_kind,
                other_tile,
                name_end,
                column_end,
                row_end,
            );
        }
    }
}

/// The tile path of a known name and of three numbers names the tile of that kind with
/// those numbers, and nothing else.
pub proof fn lemma_tile_path_is_routed(
    kind: FractalKind,
    tile: TileAddress,
    name: Seq<u8>,
    column: Seq<u8>,
    row: Seq<u8>,
    zoom: Seq<u8>,
    route: Route,
)
    requires
        FractalKind::named(name) == Some(kind),
        is_decimal(column),
        is_decimal(row),
        is_decimal(zoom),
        decimal_value(column) == tile.column,
        decimal_value(row) == tile.row,
        decimal_value(zoom) == tile.zoom,
        routed(tile_path(name, column, row, zoom), route),
    ensures
        route == (Route::Fractal { kind, tile }),
{
    let path = tile_path(name, column, row, zoom);
    assert(spells(path, kind, tile, name, column, row, zoom));
    assert(routed(path, Route::Fractal { kind, tile }));
    lemma_route_is_unique(path, route, Route::Fractal { kind, tile });
}

/// The size that a text asks for: a number in decimal digits, with or without a plus sign
/// before it, that a `usize` holds.
pub open spec fn written_size(text: Seq<u8>) -> Option<usize> {
    let digits = if text.len() > 0 && text[0] == PLUS {
        text.drop_first()
    } else {
        text
    };
    if is_decimal(digits) && decimal_value(digits) <= usize::MAX {
        Some(decimal_value(digits) as usize)
    } else {
        None
    }
}

/// The edge that a request asks for in its size parameter: the number written there, or
/// `DEFAULT_EDGE_SIZE` where there is no parameter or it is no size.
pub open spec fn edge_size_of(parameter: Option<Seq<u8>>) -> usize {
    match parameter {
        Some(text) => match written_size(text) {
            Some(size) => size,
            None => DEFAULT_EDGE_SIZE,
        },
        None => DEFAULT_EDGE_SIZE,
    }
}

/// The edge, in pixels, that a request asks for in its size parameter, or
/// `DEFAULT_EDGE_SIZE` where it has none or what stands there is no size.
pub fn requested_edge_size(parameter: Option<&[u8]>) -> (edge_size: usize)
    ensures
        edge_size == edge_size_of(
            match parameter {
                Some(text) => Some(text@),
                None => None,
            },
        ),
{
    match parameter {
        None => DEFAULT_EDGE_SIZE,
        Some(text) => {
            let digits = if text.len() > 0 && text[0] == PLUS {
                assert(text@.subrange(1, text@.len() as int) =~= text@.drop_first());
                slice_subrange(text, 1, text.len())
            } else {
                text
            };
            match parse_decimal(digits) {
                Some(size) if size <= usize::MAX as u64 => size as usize,
                _ => DEFAULT_EDGE_SIZE,
            }
        },
    }
}

/// Finds the resource that a path names: the day counter for `/flora`, a tile for a tile
/// path, and nothing for every other path.
pub fn route(path: &[u8]) -> (route: Route)
    ensures
        routed(path@, route),
{
    if same_bytes(path, &FLORA_PATH) {
        return Route::DaysCounter;
    }
    match tile_of_path(path) {
        Some((kind, tile)) => Route::Fractal { kind, tile },
        None => Route::NotFound,
    }
}

} // verus!
