use kifetch::modules::screen_info::{read_line, screen_modes};

fn modes(settings: &str) -> Vec<(usize, usize, String)> {
    screen_modes(settings).into_iter().map(|mode| (mode.width, mode.height, mode.rate)).collect()
}

fn mode(width: usize, height: usize, rate: &str) -> (usize, usize, String) {
    (width, height, rate.to_string())
}

#[test]
fn current_mode_of_a_connected_output() {
    let settings = "Screen 0: minimum 320 x 200, current 1920 x 1080, maximum 16384 x 16384\neDP-1 connected primary 1920x1080+0+0 (normal left inverted right x axis y axis) 344mm x 194mm\n   1920x1080     60.01*+  59.97    59.96  \n   1680x1050     59.95    59.88  \nHDMI-1 disconnected (normal left inverted right x axis y axis)\n";
    assert_eq!(modes(settings), vec![mode(1920, 1080, "60.01")]);
}

#[test]
fn modes_of_outputs_that_are_not_connected_do_not_count() {
    let settings = "   1920x1080     60.00*+\nHDMI-1 disconnected\n   1280x720      50.00*\nDP-1 connected 2560x1440+0+0\n   2560x1440     143.97+ 59.95\n   1920x1080     59.94*\nDP-2 connected\n   800x600       75.00*+*\n";
    assert_eq!(modes(settings), vec![mode(1920, 1080, "59.94"), mode(800, 600, "75.00")]);
}

#[test]
fn a_disconnected_line_ends_the_part_after_its_own_mode() {
    let settings = "DP-1 connected (normal)\n  1x2 3* disconnected\n  4x5 6*\n";
    assert_eq!(modes(settings), vec![mode(1, 2, "3")]);
}

#[test]
fn lines_that_are_no_current_mode() {
    let settings = "DP-1 connected (normal)\n   1920x1080\n   1920x1080 60.00\n   1920x1080x32 60.00*\n   1920 60.00*\n   widexhigh 60.00*\n   x1080 60.00*\n  mode 1x1 60.00*\n\n   640x480 *+\n";
    assert_eq!(modes(settings), vec![mode(640, 480, "")]);
    assert_eq!(modes(""), Vec::new());
    assert_eq!(modes("DP-1 connected\n   640x480 60.00*\n"), Vec::new());
}

#[test]
fn a_mode_line_begins_with_a_numeral() {
    assert_eq!(modes("DP-1 connected (normal)\n   +640x480 60.00*\n   640x480 59.94*\n"), vec![mode(640, 480, "59.94")]);
}

fn step(line: &str, connected: bool, numeric: bool) -> (Option<(usize, usize, String)>, bool) {
    let (mode, next) = read_line(line, connected, numeric);
    (mode.map(|mode| (mode.width, mode.height, mode.rate)), next)
}

#[test]
fn one_line_of_the_display_settings() {
    let line = "   1920x1080     60.00*+  59.97";
    assert_eq!(step(line, true, true), (Some(mode(1920, 1080, "60.00")), true));
    assert_eq!(step(line, true, false), (None, true));
    assert_eq!(step(line, false, true), (None, false));
    assert_eq!(step("   1920x1080     59.97", true, true), (None, true));
    assert_eq!(step("  1x2 3* disconnected", true, true), (Some(mode(1, 2, "3")), false));
    assert_eq!(step("HDMI-1 disconnected (normal)", true, false), (None, false));
    assert_eq!(step("HDMI-1 disconnected (normal)", false, false), (None, false));
}

#[test]
fn a_line_that_names_a_connected_output_adds_no_mode() {
    assert_eq!(step("1x1 1* connected (normal)", true, true), (None, true));
    assert_eq!(step("eDP-1 connected primary", false, false), (None, true));
    assert_eq!(step("eDP-1 connected", false, false), (None, false));
}
