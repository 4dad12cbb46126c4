use then_backend::{
    requested_edge_size, route, FractalKind, Route, TileAddress, DEFAULT_EDGE_SIZE,
    DEFAULT_MAX_ITERATIONS,
};

fn tile(kind: FractalKind, column: i64, row: i64, zoom: i64) -> Route {
    Route::Fractal { kind, tile: TileAddress { column, row, zoom } }
}

#[test]
fn the_day_counter_has_one_path() {
    assert_eq!(Route::DaysCounter, route(b"/flora"));
    for path in ["/flora/", "/Flora", "flora", "/flor", "/floraa", "//flora", "/flora?x=1", " /flora"] {
        assert_eq!(Route::NotFound, route(path.as_bytes()));
    }
}

#[test]
fn a_tile_path_names_its_kind_and_its_three_numbers() {
    assert_eq!(tile(FractalKind::Mandelbrot, 0, 0, 0), route(b"/fractal/mandelbrot/0/0/0.png"));
    assert_eq!(tile(FractalKind::Julia, 0, 0, 0), route(b"/fractal/julia/0/0/0.png"));
    assert_eq!(tile(FractalKind::Julia, 5, 2, 3), route(b"/fractal/julia/5/2/3.png"));
    assert_eq!(
        tile(FractalKind::Mandelbrot, 1234, 56789, 17),
        route(b"/fractal/mandelbrot/1234/56789/17.png")
    );
}

#[test]
fn the_first_number_is_the_column_and_the_second_the_row() {
    assert_eq!(
        Route::Fractal {
            kind: FractalKind::Julia,
            tile: TileAddress { column: 1, row: 2, zoom: 3 }
        },
        route(b"/fractal/julia/1/2/3.png")
    );
}

#[test]
fn numbers_may_start_with_zeros() {
    assert_eq!(tile(FractalKind::Julia, 7, 0, 10), route(b"/fractal/julia/007/000/010.png"));
}

#[test]
fn a_tile_outside_its_grid_is_still_named() {
    assert_eq!(tile(FractalKind::Julia, 9, 9, 0), route(b"/fractal/julia/9/9/0.png"));
    assert_eq!(tile(FractalKind::Julia, 0, 0, 99), route(b"/fractal/julia/0/0/99.png"));
}

#[test]
fn the_largest_numbers_are_those_of_sixty_three_bits() {
    assert_eq!(
        tile(FractalKind::Julia, i64::MAX, i64::MAX, i64::MAX),
        route(b"/fractal/julia/9223372036854775807/9223372036854775807/9223372036854775807.png")
    );
    assert_eq!(Route::NotFound, route(b"/fractal/julia/9223372036854775808/0/0.png"));
    assert_eq!(Route::NotFound, route(b"/fractal/julia/0/9223372036854775808/0.png"));
    assert_eq!(Route::NotFound, route(b"/fractal/julia/0/0/9223372036854775808.png"));
    assert_eq!(Route::NotFound, route(b"/fractal/julia/18446744073709551616/0/0.png"));
    assert_eq!(
        Route::NotFound,
        route(b"/fractal/julia/0/0/99999999999999999999999999999999999999.png")
    );
}

#[test]
fn an_unknown_fractal_names_nothing() {
    for path in [
        "/fractal/burning_ship/0/0/0.png",
        "/fractal/Julia/0/0/0.png",
        "/fractal/juli/0/0/0.png",
        "/fractal/julias/0/0/0.png",
        "/fractal//0/0/0.png",
        "/fractal/mandelbrot2/0/0/0.png",
        "/fractal/j\u{fc}lia/0/0/0.png",
    ] {
        assert_eq!(Route::NotFound, route(path.as_bytes()));
    }
}

#[test]
fn a_path_that_is_not_of_the_form_names_nothing() {
    for path in [
        "",
        "/",
        "/fractal",
        "/fractal/",
        "/fractal/julia",
        "/fractal/julia/0/0/0",
        "/fractal/julia/0/0/0.jpg",
        "/fractal/julia/0/0/0.png/",
        "/fractal/julia/0/0/0.png ",
        "/fractal/julia/0/0/0xpng",
        "/fractal/julia/0/0/.png",
        "/fractal/julia/0//0.png",
        "/fractal/julia//0/0.png",
        "/fractal/julia/0/0.png",
        "/fractal/julia/0/0/0/0.png",
        "/fractal/julia/-1/0/0.png",
        "/fractal/julia/+1/0/0.png",
        "/fractal/julia/1.5/0/0.png",
        "/fractal/julia/a/0/0.png",
        "/fractal/julia/0/0/0.PNG",
        "/fractal/julia/0/0/0.png\n",
        "/fractal/julia/0/ 0/0.png",
        "/fractal/julia/\u{661}/0/0.png",
        "fractal/julia/0/0/0.png",
        "//fractal/julia/0/0/0.png",
        "/Fractal/julia/0/0/0.png",
        "/fractal/julia/0/0/0.png.png",
        "/fractals/julia/0/0/0.png",
        "/x/fractal/julia/0/0/0.png",
        "/fractal/julia/0/0/0.png?size=4",
    ] {
        assert_eq!(Route::NotFound, route(path.as_bytes()), "{}", path);
    }
}

#[test]
fn bytes_that_are_no_text_name_nothing() {
    assert_eq!(Route::NotFound, route(&[0xff, 0xfe, 0x00]));
    assert_eq!(Route::NotFound, route(&[b'/'; 40]));
    let mut path = b"/fractal/julia/0/0/0.png".to_vec();
    path[10] = 0xff;
    assert_eq!(Route::NotFound, route(&path));
}

#[test]
fn a_tile_has_256_pixels_a_side_unless_the_request_says_otherwise() {
    assert_eq!(256, DEFAULT_EDGE_SIZE);
    assert_eq!(256, DEFAULT_MAX_ITERATIONS);
    assert_eq!(256, requested_edge_size(None));
    assert_eq!(4, requested_edge_size(Some(b"4")));
    assert_eq!(512, requested_edge_size(Some(b"512")));
    assert_eq!(512, requested_edge_size(Some(b"+512")));
    assert_eq!(512, requested_edge_size(Some(b"00512")));
    assert_eq!(0, requested_edge_size(Some(b"0")));
    assert_eq!(1, requested_edge_size(Some(b"1")));
    assert_eq!(usize::MAX, requested_edge_size(Some(usize::MAX.to_string().as_bytes())));
}

#[test]
fn a_size_that_is_no_number_is_the_default() {
    for text in [
        "", "+", "-", "-4", "4.0", "4 ", " 4", "four", "0x10", "++4", "+-4", "4+", "1e3", "\u{664}",
        "99999999999999999999999999", "18446744073709551616",
    ] {
        assert_eq!(256, requested_edge_size(Some(text.as_bytes())), "{}", text);
        assert!(text.parse::<usize>().is_err());
    }
}

#[test]
fn sizes_are_read_as_the_standard_library_reads_them() {
    for text in ["7", "+7", "007", "4096", "65536", "+0", "123456789"] {
        assert_eq!(text.parse::<usize>().unwrap(), requested_edge_size(Some(text.as_bytes())));
    }
}

#[test]
fn tile_paths_are_those_that_the_pattern_matches() {
    let pattern = regex::Regex::new(r"^/fractal/(\w+)/(\d+)/(\d+)/(\d+)\.png$").unwrap();
    let mut paths: Vec<String> = Vec::new();
    for name in ["julia", "mandelbrot", "newton", "jul/ia", "", "julia2", "_"] {
        for column in ["0", "12", "007", "", "-1", "1a", "9223372036854775807", "9223372036854775808"] {
            for row in ["3", "", "x"] {
                for tail in ["5.png", "5", ".png", "5.pngx", "5.gif", "5/.png", "62.png"] {
                    paths.push(format!("/fractal/{}/{}/{}/{}", name, column, row, tail));
                    paths.push(format!("/fractal/{}/{}/{}/{}/", name, column, row, tail));
                    paths.push(format!("fractal/{}/{}/{}/{}", name, column, row, tail));
                }
            }
        }
    }
    let mut tiles = 0;
    for path in paths {
        let expected = match pattern.captures(&path) {
            None => Route::NotFound,
            Some(captures) => {
                let kind = FractalKind::from_name(&captures[1]);
                let numbers = (
                    captures[2].parse::<i64>(),
                    captures[3].parse::<i64>(),
                    captures[4].parse::<i64>(),
                );
                match (kind, numbers) {
                    (Ok(kind), (Ok(column), Ok(row), Ok(zoom))) => {
                        tiles += 1;
                        Route::Fractal { kind, tile: TileAddress { column, row, zoom } }
                    }
                    _ => Route::NotFound,
                }
            }
        };
        assert_eq!(expected, route(path.as_bytes()), "{}", path);
    }
    assert_eq!(16, tiles);
}
