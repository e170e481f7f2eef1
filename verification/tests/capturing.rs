use wl_translate::capture::{
    dragged, finished, freeze, frozen, grab, grabbed, interactive, released, select_from,
    select_region, selected, Interactive, Region,
};
use wl_translate::clip::{
    clipboard, copied, copy, copy_image, image_copied, pasted, primary, Handover,
};
use wl_translate::command::{Exit, Invocation};
use wl_translate::hyprland::{
    active_workspaces, ask, focused_corner, focused_output, read_clients, read_monitors,
    read_window, visible_windows, Client, Monitor,
};
use wl_translate::shot;
use wl_translate::shot::{
    advance, ask_for_pictures, ask_for_time, capture, destination, named_pictures, not_created,
    not_written, pictures_dir, preset, take, take_captured, take_copied, take_saved, timestamp,
    Mode, Stage, Step, Take,
};

fn exited(success: bool, stdout: &[u8], stderr: &[u8]) -> Result<Exit, String> {
    Ok(Exit { success, stdout: stdout.to_vec(), stderr: stderr.to_vec() })
}

fn missing() -> Result<Exit, String> {
    Err("No such file".to_owned())
}

fn line(command: &Invocation) -> String {
    format!("{} {}", command.program, command.args.join(" "))
}

#[test]
fn parses_the_modes_and_their_aliases() {
    assert_eq!("region".parse::<Mode>().unwrap(), Mode::Region);
    assert_eq!("area".parse::<Mode>().unwrap(), Mode::Region);
    assert_eq!("window".parse::<Mode>().unwrap(), Mode::Window);
    assert_eq!("screen".parse::<Mode>().unwrap(), Mode::Screen);
    assert_eq!("full".parse::<Mode>().unwrap(), Mode::Screen);
}

#[test]
fn rejects_an_unknown_mode() {
    assert!("everything".parse::<Mode>().is_err());
}

#[test]
fn an_unknown_mode_is_named() {
    assert_eq!(
        Mode::named("everything").unwrap_err().message,
        "unknown mode 'everything' (expected region, window or screen)"
    );
    assert_eq!(Mode::named("active").unwrap(), Mode::Window);
    assert_eq!(Mode::named("output").unwrap(), Mode::Screen);
}

#[test]
fn a_mode_survives_its_name() {
    for mode in [Mode::Region, Mode::Window, Mode::Screen] {
        assert_eq!(mode.as_str().parse::<Mode>().unwrap(), mode);
    }
}

#[test]
fn a_geometry_is_kept_as_it_was_given() {
    let region = Region::parse("  -10,20 300x400\n").unwrap();
    assert_eq!(region.as_str(), "-10,20 300x400");
    assert_eq!(line(&grab(&region)), "grim -t ppm -g -10,20 300x400 -");
}

#[test]
fn a_geometry_that_is_none_says_what_is_wrong() {
    let wrong = |geometry: &str| Region::parse(geometry).unwrap_err().message;

    assert_eq!(wrong("10,20"), "expected geometry as 'X,Y WxH', got '10,20'");
    assert_eq!(wrong("10 20x30"), "expected origin as 'X,Y', got '10'");
    assert_eq!(wrong("10,20 30"), "expected size as 'WxH', got '30'");
    assert_eq!(wrong("a,20 30x40"), "x is not a number in 'a,20 30x40': invalid digit found in string");
    assert_eq!(wrong("1,b 30x40"), "y is not a number in '1,b 30x40': invalid digit found in string");
    assert_eq!(wrong("1,2 cx40"), "width is not a number in '1,2 cx40': invalid digit found in string");
    assert_eq!(wrong("1,2 3x"), "height is not a number in '1,2 3x': cannot parse integer from empty string");
    assert_eq!(
        wrong("1,2 3x2147483648"),
        "height is not a number in '1,2 3x2147483648': number too large to fit in target type"
    );
    assert_eq!(wrong("1,2 3x4 5"), "height is not a number in '1,2 3x4 5': invalid digit found in string");
}

#[test]
fn a_dragged_region_is_grabbed() {
    assert_eq!(line(&select_region()), "slurp ");
    match dragged(false, exited(true, b"1,2 3x4\n", b"")) {
        Interactive::Grab { held: false, command } => {
            assert_eq!(line(&command), "grim -t ppm -g 1,2 3x4 -")
        }
        other => panic!("{other:?}"),
    }
    match finished(false, exited(true, b"P6", b"")) {
        Interactive::Done(Ok(Some(image))) => assert_eq!(image, b"P6"),
        other => panic!("{other:?}"),
    }
}

#[test]
fn a_cancelled_drag_is_not_an_error() {
    assert!(matches!(
        dragged(false, exited(false, b"", b"selection cancelled")),
        Interactive::Done(Ok(None))
    ));
    assert!(selected(exited(true, b" \n", b"")).unwrap().is_none());
}

#[test]
fn a_selection_that_fails_says_why() {
    assert_eq!(
        selected(missing()).unwrap_err().message,
        "could not run `slurp` - is it installed?: No such file"
    );
    assert_eq!(
        selected(exited(true, &[0x31, 0xff], b"")).unwrap_err().message,
        "slurp returned non-utf8: invalid utf-8 sequence of 1 bytes from index 1"
    );
}

#[test]
fn a_grab_gives_its_output_or_says_why_not() {
    assert_eq!(grabbed(exited(true, b"P6", b"")).unwrap(), b"P6");
    assert_eq!(
        grabbed(exited(false, b"", b" no output \n")).unwrap_err().message,
        "grim failed: no output"
    );
    assert_eq!(
        grabbed(exited(true, b"", b"")).unwrap_err().message,
        "grim produced an empty capture"
    );
    assert_eq!(
        grabbed(missing()).unwrap_err().message,
        "could not run `grim` - is it installed?: No such file"
    );
}

#[test]
fn the_screen_is_held_only_if_that_is_wanted() {
    assert_eq!(line(&freeze()), "hyprpicker -r -z -d -q");
    match interactive(false) {
        Interactive::Select { held: false, command } => assert_eq!(line(&command), "slurp "),
        other => panic!("{other:?}"),
    }
    match interactive(true) {
        Interactive::Freeze(command) => assert_eq!(line(&command), "hyprpicker -r -z -d -q"),
        other => panic!("{other:?}"),
    }
}

#[test]
fn the_screen_is_held_until_after_the_grab() {
    match frozen(true) {
        Interactive::Select { held: true, command } => assert_eq!(line(&command), "slurp "),
        other => panic!("{other:?}"),
    }
    assert!(matches!(
        dragged(true, exited(true, b"1,2 3x4\n", b"")),
        Interactive::Grab { held: true, .. }
    ));
    let result = match finished(true, exited(true, b"P6", b"")) {
        Interactive::Release(result) => result,
        other => panic!("{other:?}"),
    };
    match released(result) {
        Interactive::Done(Ok(Some(image))) => assert_eq!(image, b"P6"),
        other => panic!("{other:?}"),
    }

    // Every other way out takes it down too.
    assert!(matches!(dragged(true, exited(false, b"", b"")), Interactive::Release(Ok(None))));
    assert!(matches!(dragged(true, missing()), Interactive::Release(Err(_))));
    assert!(matches!(finished(true, missing()), Interactive::Release(Err(_))));

    // One that did not start is no failure, and there is nothing to take down.
    assert!(matches!(frozen(false), Interactive::Select { held: false, .. }));
    assert!(matches!(dragged(false, missing()), Interactive::Done(Err(_))));
}

#[test]
fn the_clipboard_is_reached_through_wl_clipboard() {
    assert_eq!(line(&copy()), "wl-copy ");
    assert_eq!(line(&copy_image()), "wl-copy --type image/png");
    assert_eq!(line(&primary()), "wl-paste --primary --no-newline");
    assert_eq!(line(&clipboard()), "wl-paste --no-newline");
}

#[test]
fn an_empty_selection_reads_as_nothing() {
    assert_eq!(pasted(exited(true, b" ciao \n", b"")).unwrap(), "ciao");
    assert_eq!(pasted(exited(false, b"left over", b"")).unwrap(), "");
    assert_eq!(
        pasted(missing()).unwrap_err().message,
        "could not run `wl-paste` - is wl-clipboard installed?: No such file"
    );
}

#[test]
fn copying_fails_for_a_reason() {
    let why = |handover: Handover| copied(handover).unwrap_err().message;

    assert_eq!(
        why(Handover::NotRun("gone".to_owned())),
        "could not run `wl-copy` - is wl-clipboard installed?: gone"
    );
    assert_eq!(why(Handover::NoInput), "wl-copy stdin unavailable");
    assert_eq!(why(Handover::NotWritten("broken pipe".to_owned())), "broken pipe");
    assert_eq!(why(Handover::NotWaited("lost".to_owned())), "lost");
    assert_eq!(
        why(Handover::Exited { success: false, status: "exit status: 1".to_owned() }),
        "wl-copy exited with exit status: 1"
    );
    assert!(copied(Handover::Exited { success: true, status: String::new() }).is_ok());
    assert!(image_copied(Handover::Exited { success: false, status: String::new() }).is_ok());
    assert!(image_copied(Handover::NoInput).is_err());
}

const MONITORS: &[u8] = br#"[
    {"name": "DP-1", "focused": false, "activeWorkspace": {"id": 1}},
    {"name": "eDP-1", "focused": true, "activeWorkspace": {"id": 4}, "x": 1920, "y": -40},
    {"focused": true}
]"#;

const CLIENTS: &[u8] = br#"[
    {"at": [10, -20], "size": [300, 400], "workspace": {"id": 4}, "mapped": true, "hidden": false},
    {"at": [0, 0], "size": [300, 400], "workspace": {"id": 9}, "mapped": true, "hidden": false},
    {"at": [0, 0], "size": [300, 400], "workspace": {"id": 1}, "mapped": true, "hidden": true},
    {"at": [0, 0], "size": [0, 400], "workspace": {"id": 1}, "mapped": true},
    {"size": [5, 6], "workspace": {"id": 1}, "mapped": true},
    {"at": [1.5, "x"], "size": [7, 8], "workspace": {"id": 1}, "mapped": true, "hidden": null},
    {"at": [0, 0], "size": [3, 4], "workspace": {"id": 1}},
    "not a window"
]"#;

#[test]
fn only_windows_you_can_see_are_offered() {
    let shown = active_workspaces(&read_monitors(&MONITORS.to_vec()).unwrap());
    assert_eq!(shown, [1, 4]);
    let clients = read_clients(&CLIENTS.to_vec()).unwrap();
    assert_eq!(clients.len(), 8);
    assert_eq!(
        visible_windows(&clients, &shown),
        ["10,-20 300x400", "0,0 5x6", "0,0 7x8"]
    );
    for area in visible_windows(&clients, &shown) {
        assert_eq!(Region::parse(&area).unwrap().as_str(), area);
    }
}

#[test]
fn what_a_window_leaves_out_counts_as_nothing() {
    assert_eq!(
        read_clients(&b"[{}]".to_vec()).unwrap(),
        [Client {
            x: 0,
            y: 0,
            width: 0,
            height: 0,
            workspace: i64::MIN,
            mapped: false,
            hidden: false
        }]
    );
}

#[test]
fn the_focused_window_is_read() {
    let bytes = br#"{"at": [3, 4], "size": [5, 6], "mapped": true}"#.to_vec();
    let window = read_window(&bytes).unwrap();
    assert_eq!((window.x, window.y, window.width, window.height), (3, 4, 5, 6));
    assert_eq!(read_window(&b"{}".to_vec()).unwrap().width, 0);
    assert_eq!(read_window(&b"".to_vec()), None);
}

#[test]
fn the_focused_output_is_found() {
    let monitors = read_monitors(&MONITORS.to_vec()).unwrap();
    assert_eq!(focused_output(&monitors).unwrap(), "eDP-1");
    assert_eq!(
        focused_output(&Vec::new()).unwrap_err().message,
        "no focused output reported"
    );
    let nameless = vec![
        Monitor { name: None, workspace: None, focused: true, x: 0, y: 0 },
        Monitor { name: Some("DP-2".to_owned()), workspace: None, focused: true, x: 5, y: 6 },
    ];
    assert!(focused_output(&nameless).is_err());
    assert_eq!(focused_corner(&monitors), (1920, -40));
    assert_eq!(focused_corner(&nameless), (0, 0));
    assert_eq!(focused_corner(&Vec::new()), (0, 0));
}

#[test]
fn an_answer_that_is_no_list_is_refused() {
    assert_eq!(
        read_clients(&b"{}".to_vec()).unwrap_err().message,
        "hyprctl clients: not a list"
    );
    assert_eq!(
        read_monitors(&b"7".to_vec()).unwrap_err().message,
        "hyprctl monitors: not a list"
    );
    assert!(read_monitors(&b"[".to_vec())
        .unwrap_err()
        .message
        .starts_with("hyprctl returned invalid json: EOF"));
}

fn run(step: Step) -> (Stage, String, String) {
    match step {
        Step::Run { held: false, stage, command, input } => (stage, line(&command), input),
        other => panic!("{other:?}"),
    }
}

fn done(step: Step) -> Result<Option<Vec<u8>>, String> {
    match step {
        Step::Done(result) => result.map_err(|failure| failure.message),
        other => panic!("{other:?}"),
    }
}

#[test]
fn a_region_is_captured_in_two_steps() {
    let (stage, command, _) = run(capture(Mode::Region, false));
    assert_eq!(command, "slurp ");
    let (stage, command, _) = run(advance(false, stage, exited(true, b"1,2 3x4", b"")));
    assert_eq!(command, "grim -t png -g 1,2 3x4 -");
    assert_eq!(done(advance(false, stage, exited(true, b"png", b""))), Ok(Some(b"png".to_vec())));
}

#[test]
fn a_screenshot_holds_the_screen_until_after_the_grab() {
    let mode = match capture(Mode::Region, true) {
        Step::Freeze { mode, command } => {
            assert_eq!(line(&command), "hyprpicker -r -z -d -q");
            mode
        }
        other => panic!("{other:?}"),
    };
    let (stage, command) = match shot::frozen(mode, true) {
        Step::Run { held: true, stage, command, .. } => (stage, line(&command)),
        other => panic!("{other:?}"),
    };
    assert_eq!(command, "slurp ");
    let (stage, command) = match advance(true, stage, exited(true, b"1,2 3x4", b"")) {
        Step::Run { held: true, stage, command, .. } => (stage, line(&command)),
        other => panic!("{other:?}"),
    };
    assert_eq!(command, "grim -t png -g 1,2 3x4 -");
    let result = match advance(true, stage, exited(true, b"png", b"")) {
        Step::Release(result) => result,
        other => panic!("{other:?}"),
    };
    assert_eq!(done(shot::released(result)), Ok(Some(b"png".to_vec())));

    assert!(matches!(capture(Mode::Window, true), Step::Freeze { mode: Mode::Window, .. }));
    assert!(matches!(advance(true, Stage::Window, exited(false, b"", b"")), Step::Release(Ok(None))));
    assert!(matches!(advance(true, Stage::Monitors, missing()), Step::Release(Err(_))));
    assert!(matches!(shot::frozen(Mode::Window, false), Step::Run { held: false, .. }));
}

#[test]
fn a_window_is_picked_among_the_visible_ones() {
    let (stage, command, _) = run(capture(Mode::Window, false));
    assert_eq!(command, line(&ask("monitors")));
    let (stage, command, _) = run(advance(false, stage, exited(true, MONITORS, b"")));
    assert_eq!(command, "hyprctl clients -j");
    let (stage, command, input) = run(advance(false, stage, exited(true, CLIENTS, b"")));
    assert_eq!(command, "slurp -r");
    assert_eq!(input, "10,-20 300x400\n0,0 5x6\n0,0 7x8");
    assert_eq!(done(advance(false, stage, exited(false, b"", b""))), Ok(None));
}

#[test]
fn a_screen_is_never_held() {
    let (stage, command, _) = run(capture(Mode::Screen, true));
    assert_eq!(command, "hyprctl monitors -j");
    let (_, command, _) = run(advance(false, stage, exited(true, MONITORS, b"")));
    assert_eq!(command, "grim -t png -o eDP-1 -");
}

#[test]
fn a_capture_that_fails_says_why() {
    assert_eq!(
        done(advance(false, Stage::Output, missing())),
        Err("could not run `hyprctl` - window and screen modes need Hyprland: No such file".to_owned())
    );
    assert_eq!(
        done(advance(false, Stage::Monitors, exited(false, b"", b""))),
        Err("hyprctl monitors -j failed".to_owned())
    );
    assert_eq!(
        done(advance(false, Stage::Clients { shown: vec![1] }, exited(false, b"", b""))),
        Err("hyprctl clients -j failed".to_owned())
    );
    assert_eq!(
        done(advance(false, Stage::Output, exited(true, b"[]", b""))),
        Err("no focused output reported".to_owned())
    );
    assert_eq!(
        done(advance(false, Stage::Grab, exited(true, b"", b""))),
        Err("grim produced an empty capture".to_owned())
    );
}

#[test]
fn rectangles_are_handed_over_one_a_line() {
    let (command, input) = select_from(&vec!["1,2 3x4".to_owned(), "5,6 7x8".to_owned()]);
    assert_eq!(line(&command), "slurp -r");
    assert_eq!(input, "1,2 3x4\n5,6 7x8");
}

#[test]
fn a_screenshot_is_copied_before_it_is_saved() {
    match take(Mode::Region, false, true) {
        Take::Capture { step, save } => {
            assert!(save);
            assert_eq!(run(step).1, "slurp ");
        }
        other => panic!("{other:?}"),
    }
    assert!(matches!(take_captured(Ok(None), true), Take::Done(Ok(None))));
    let png = match take_captured(Ok(Some(vec![1])), true) {
        Take::Copy { png, save: true } => png,
        other => panic!("{other:?}"),
    };
    let png = match take_copied(png, true, Ok(())) {
        Take::Save(png) => png,
        other => panic!("{other:?}"),
    };
    match take_saved(png, Ok(b"/p".to_vec())) {
        Take::Done(Ok(Some(shot))) => {
            assert_eq!(shot.png, [1]);
            assert_eq!(shot.saved, Some(b"/p".to_vec()));
        }
        other => panic!("{other:?}"),
    }
    match take_copied(vec![2], false, Ok(())) {
        Take::Done(Ok(Some(shot))) => assert_eq!(shot.saved, None),
        other => panic!("{other:?}"),
    }
    assert!(matches!(
        take_copied(vec![2], true, Err(not_written("x", "y"))),
        Take::Done(Err(_))
    ));
}

#[test]
fn pictures_are_where_the_desktop_says() {
    assert_eq!(line(&ask_for_pictures()), "xdg-user-dir PICTURES");
    let named = named_pictures(exited(true, b"/home/you/Immagini\n", b""));
    assert_eq!(named.as_deref(), Some("/home/you/Immagini"));
    assert_eq!(named_pictures(exited(true, b"\n", b"")), None);
    assert_eq!(named_pictures(exited(false, b"/x", b"")), None);
    assert_eq!(named_pictures(missing()), None);

    let home = || Some(b"/home/you".to_vec());
    assert_eq!(pictures_dir(named.clone(), true, home()), b"/home/you/Immagini");
    assert_eq!(pictures_dir(named, false, home()), b"/home/you/Pictures");
    assert_eq!(pictures_dir(None, true, None), b"./Pictures");
}

#[test]
fn a_screenshot_is_named_by_the_time() {
    assert_eq!(line(&ask_for_time()), "date +%Y-%m-%d_%H-%M-%S");
    let stamp = timestamp(exited(true, b"2026-01-02_03-04-05\n", b""));
    assert_eq!(
        destination(&b"/p".to_vec(), &stamp),
        b"/p/Screenshots/Screenshot_2026-01-02_03-04-05.png"
    );
    assert_eq!(timestamp(missing()), "unknown");
    assert_eq!(timestamp(exited(true, b" ", b"")), "unknown");
    assert_eq!(not_created("/p", "denied").message, "could not create /p: denied");
    assert_eq!(not_written("/p/x", "full").message, "could not write /p/x: full");
}

#[test]
fn the_overlay_opens_on_what_the_mode_names() {
    let window = Client {
        x: 1930,
        y: 50,
        width: 100,
        height: 60,
        workspace: 1,
        mapped: true,
        hidden: false,
    };
    let image = (3840, 2160);

    assert_eq!(preset(Mode::Region, image, (1920, 0), 240, Some(window)), None);
    assert_eq!(
        preset(Mode::Screen, image, (1920, 0), 240, Some(window)),
        Some((0, 0, 3840, 2160))
    );
    assert_eq!(
        preset(Mode::Window, image, (1920, 0), 240, Some(window)),
        Some((20, 100, 200, 120))
    );
    assert_eq!(preset(Mode::Window, image, (1920, 0), 240, None), None);
    assert_eq!(
        preset(Mode::Window, image, (0, 0), 240, Some(Client { x: i64::MAX, ..window })),
        None
    );
}
