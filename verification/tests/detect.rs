use xplane_log_triage::detect::{first_in_path_order, parse_steam_libraryfolders};

#[test]
fn parses_steam_library_paths() {
    let text = r#"
        "libraryfolders"
        {
            "0"
            {
                "path"      "C:\\Program Files (x86)\\Steam"
            }
            "1"
            {
                "path"      "D:\\SteamLibrary"
            }
        }
        "#;
    let paths = parse_steam_libraryfolders(text);
    assert!(paths.iter().any(|path| path == r"D:\SteamLibrary"));
}

fn components(parts: &[(u8, &str)]) -> Vec<(u8, String)> {
    parts.iter().map(|(kind, text)| (*kind, text.to_string())).collect()
}

#[test]
fn first_in_path_order_takes_the_smallest_path() {
    assert_eq!(first_in_path_order(&vec![]), None);
    let paths = vec![
        components(&[(1, ""), (4, "home"), (4, "b")]),
        components(&[(1, ""), (4, "home"), (4, "a"), (4, "X-Plane 12")]),
        components(&[(1, ""), (4, "home"), (4, "a")]),
        components(&[(1, ""), (4, "home"), (4, "a")]),
    ];
    assert_eq!(first_in_path_order(&paths), Some(2));
    let windows = vec![
        components(&[(0, "D:"), (1, ""), (4, "X-Plane 12")]),
        components(&[(0, "C:"), (1, ""), (4, "Program Files"), (4, "X-Plane 12")]),
        components(&[(0, "C:"), (1, ""), (4, "X-Plane 12")]),
    ];
    assert_eq!(first_in_path_order(&windows), Some(1));
    let relative = vec![
        components(&[(4, "a")]),
        components(&[(3, ".."), (4, "z")]),
    ];
    assert_eq!(first_in_path_order(&relative), Some(1));
}
