use wallpaper_controller::instances::{other_pids, remaining_targets};

const LISTING: &str = "\"Image Name\",\"PID\",\"Session Name\",\"Session#\",\"Mem Usage\"\r\n\"wallpaper-controller.exe\",\"4120\",\"Console\",\"1\",\"12,345 K\"\r\n\"wallpaper-controller.exe\",\"977\",\"Console\",\"1\",\"9,876 K\"\r\n\r\n\"wallpaper-controller.exe\",\"31337\",\"Services\",\"0\",\"1 K\"\r\n";

#[test]
fn other_processes_are_read_from_the_list() {
    assert_eq!(other_pids(LISTING, 977), vec![4120, 31337]);
    assert_eq!(other_pids(LISTING, 1), vec![4120, 977, 31337]);
}

#[test]
fn heading_holds_no_process() {
    assert_eq!(other_pids("\"a\",\"5\"", 1), Vec::<u32>::new());
    assert_eq!(other_pids("\"a\",\"5\"\n\"a\",\"6\"", 1), vec![6]);
    assert_eq!(other_pids("", 1), Vec::<u32>::new());
    assert_eq!(other_pids("\n", 1), Vec::<u32>::new());
}

#[test]
fn lines_without_a_number_are_passed_over() {
    let listing = "heading\nINFO: No tasks are running which match the specified criteria.\n\
        only-one-field\n\"x\",\"PID\"\nx, \"12\" ,y\n x , 13\n\"x\",\"4294967296\"\n\"x\",\"-4\"\n\
        \"x\",\"\"14\"\"\n\"x\",\"1 5\"\n  \n\"x\",\"4294967295\"";
    assert_eq!(other_pids(listing, 0), vec![12, 13, 14, 4294967295]);
}

#[test]
fn reading_agrees_with_the_standard_functions() {
    for listing in [LISTING, "h\r\na,1\r\nb,2", "h\na,\"+3\"\n\nb, \"\"4\" \n", "h\n,5,\n6\n,"] {
        let mut expected: Vec<u32> = Vec::new();
        for (i, line) in listing.lines().enumerate() {
            if i == 0 {
                continue;
            }
            let trimmed = line.trim();
            if trimmed.is_empty() {
                continue;
            }
            let parts: Vec<String> =
                trimmed.split(',').map(|s| s.trim().trim_matches('"').to_string()).collect();
            if parts.len() < 2 {
                continue;
            }
            if let Ok(pid) = parts[1].parse::<u32>() {
                if pid != 2 {
                    expected.push(pid);
                }
            }
        }
        assert_eq!(other_pids(listing, 2), expected);
    }
}

#[test]
fn only_targets_that_are_still_there_remain() {
    assert_eq!(remaining_targets(LISTING, 977, &vec![31337, 5, 4120]), vec![4120, 31337]);
    assert_eq!(remaining_targets(LISTING, 977, &vec![977, 31337]), vec![31337]);
    assert_eq!(remaining_targets(LISTING, 977, &vec![]), Vec::<u32>::new());
    assert_eq!(remaining_targets("h\n", 1, &vec![4120]), Vec::<u32>::new());
}
