//! What Hyprland says about its windows and outputs.
//!
//! The compositor is only asked where the windows are; slurp does the
//! highlighting and snapping. Another compositor means one more module like
//! this one, nothing else.
use crate::capture;
use crate::command;
use crate::command::{Exit, Failure, Invocation, InvocationView};
use crate::json;
use crate::json::{follow, get_field, parse_document, Json};
use crate::text;
use vstd::prelude::*;

verus! {

/// A window, as far as picking one needs to know it.
#[derive(Debug, Clone, Copy, PartialEq, Eq, Structural)]
pub struct Client {
    pub x: i64,
    pub y: i64,
    pub width: i64,
    pub height: i64,
    /// The workspace it is on.
    pub workspace: i64,
    pub mapped: bool,
    pub hidden: bool,
}

/// An output.
#[derive(Debug)]
pub struct Monitor {
    pub name: Option<String>,
    /// The workspace it shows.
    pub workspace: Option<i64>,
    pub focused: bool,
    /// Where its corner lies among the outputs.
    pub x: i64,
    pub y: i64,
}

pub struct MonitorView {
    pub name: Option<Seq<char>>,
    pub workspace: Option<i64>,
    pub focused: bool,
    pub x: i64,
    pub y: i64,
}

impl View for Monitor {
    type V = MonitorView;

    open spec fn view(&self) -> MonitorView {
        MonitorView {
            name: match self.name {
                Some(name) => Some(name@),
                None => None,
            },
            workspace: self.workspace,
            focused: self.focused,
            x: self.x,
            y: self.y,
        }
    }
}

/// The contents of a list of outputs.
pub open spec fn monitor_list(list: Seq<Monitor>) -> Seq<MonitorView> {
    list.map_values(|monitor: Monitor| monitor@)
}

/// A question to the compositor, answered in JSON.
pub open spec fn asking(what: Seq<char>) -> InvocationView {
    InvocationView { program: "hyprctl"@, args: seq![what, "-j"@] }
}

/// Ask the compositor a question, to be answered in JSON.
pub fn ask(what: &str) -> (command: Invocation)
    ensures
        command@ == asking(what@),
{
    let command = Invocation::new("hyprctl").with(what).with("-j");
    proof {
        assert(command@ =~= asking(what@));
    }
    command
}

/// What the compositor printed in answer, or what went wrong.
pub open spec fn answer(what: Seq<char>, outcome: Result<Exit, String>) -> Result<
    Seq<u8>,
    Seq<char>,
> {
    match outcome {
        Err(cause) => Err(
            command::because(
                "could not run `hyprctl` - window and screen modes need Hyprland"@,
                cause@,
            ),
        ),
        Ok(exit) => if exit.success {
            Ok(exit.stdout@)
        } else {
            Err("hyprctl "@ + what + " -j failed"@)
        },
    }
}

/// What the compositor printed in answer.
pub fn answered(what: &str, outcome: Result<Exit, String>) -> (result: Result<Vec<u8>, Failure>)
    ensures
        match result {
            Ok(bytes) => answer(what@, outcome) == Ok::<Seq<u8>, Seq<char>>(bytes@),
            Err(failure) => answer(what@, outcome) == Err::<Seq<u8>, Seq<char>>(failure@),
        },
{
    match outcome {
        Err(cause) => Err(
            Failure::caused(
                "could not run `hyprctl` - window and screen modes need Hyprland",
                cause.as_str(),
            ),
        ),
        Ok(exit) => if exit.success {
            Ok(exit.stdout)
        } else {
            Err(Failure::quoting("hyprctl ", what, " -j failed"))
        },
    }
}

/// The whole number that two steps into a value lead to, when they do.
pub open spec fn number_in(value: Json, first: Seq<char>, second: Seq<char>) -> Option<i64> {
    json::as_integer(value.walk(seq![first, second]))
}

/// What is there, or a stand-in for what is missing.
pub open spec fn or(value: Option<i64>, missing: i64) -> i64 {
    match value {
        Some(n) => n,
        None => missing,
    }
}

/// The window a value describes. What is missing counts as nothing: no size, no
/// workspace, not mapped, not hidden.
pub open spec fn client_of(value: Json) -> Client {
    Client {
        x: or(number_in(value, "at"@, "0"@), 0),
        y: or(number_in(value, "at"@, "1"@), 0),
        width: or(number_in(value, "size"@, "0"@), 0),
        height: or(number_in(value, "size"@, "1"@), 0),
        workspace: or(number_in(value, "workspace"@, "id"@), i64::MIN),
        mapped: json::as_truth(value.field("mapped"@)) == Some(true),
        hidden: json::as_truth(value.field("hidden"@)) == Some(true),
    }
}

/// The output a value describes.
pub open spec fn monitor_of(value: Json) -> MonitorView {
    MonitorView {
        name: json::as_text(value.field("name"@)),
        workspace: number_in(value, "activeWorkspace"@, "id"@),
        focused: json::as_truth(value.field("focused"@)) == Some(true),
        x: or(json::as_integer(value.field("x"@)), 0),
        y: or(json::as_integer(value.field("y"@)), 0),
    }
}

fn read_number(
    value: &serde_json::Value,
    pointer: &str,
    Ghost(first): Ghost<Seq<char>>,
    Ghost(second): Ghost<Seq<char>>,
) -> (number: Option<i64>)
    requires
        pointer@ == seq!['/'] + first + seq!['/'] + second,
        json::plain_steps(seq![first, second]),
    ensures
        number == number_in(json::json_of(*value), first, second),
{
    let ghost tokens = seq![first, second];
    proof {
        assert(tokens.skip(1) =~= seq![second]);
        assert(tokens.skip(1).skip(1) =~= Seq::<Seq<char>>::empty());
        reveal_with_fuel(json::pointer_to, 3);
        assert(json::pointer_to(tokens) =~= pointer@);
    }
    match follow(value, pointer, Ghost(tokens)) {
        Some(found) => found.as_i64(),
        None => None,
    }
}

fn read_truth(value: &serde_json::Value, key: &str) -> (truth: bool)
    ensures
        truth == (json::as_truth(json::json_of(*value).field(key@)) == Some(true)),
{
    match get_field(value, key) {
        Some(found) => match found.as_bool() {
            Some(truth) => truth,
            None => false,
        },
        None => false,
    }
}

fn read_integer(value: &serde_json::Value, key: &str) -> (number: i64)
    ensures
        number == or(json::as_integer(json::json_of(*value).field(key@)), 0),
{
    match get_field(value, key) {
        Some(found) => match found.as_i64() {
            Some(number) => number,
            None => 0,
        },
        None => 0,
    }
}

/// What `number` is, or a stand-in for what is missing.
fn number_or(number: Option<i64>, missing: i64) -> (result: i64)
    ensures
        result == or(number, missing),
{
    match number {
        Some(n) => n,
        None => missing,
    }
}

/// The window a value describes.
pub fn read_client(value: &serde_json::Value) -> (client: Client)
    ensures
        client == client_of(json::json_of(*value)),
{
    proof {
        reveal_strlit("/at/0");
        reveal_strlit("/at/1");
        reveal_strlit("/size/0");
        reveal_strlit("/size/1");
        reveal_strlit("/workspace/id");
        reveal_strlit("at");
        reveal_strlit("size");
        reveal_strlit("workspace");
        reveal_strlit("id");
        reveal_strlit("0");
        reveal_strlit("1");
        assert("/at/0"@ =~= seq!['/'] + "at"@ + seq!['/'] + "0"@);
        assert("/at/1"@ =~= seq!['/'] + "at"@ + seq!['/'] + "1"@);
        assert("/size/0"@ =~= seq!['/'] + "size"@ + seq!['/'] + "0"@);
        assert("/size/1"@ =~= seq!['/'] + "size"@ + seq!['/'] + "1"@);
        assert("/workspace/id"@ =~= seq!['/'] + "workspace"@ + seq!['/'] + "id"@);
    }
    Client {
        x: number_or(read_number(value, "/at/0", Ghost("at"@), Ghost("0"@)), 0),
        y: number_or(read_number(value, "/at/1", Ghost("at"@), Ghost("1"@)), 0),
        width: number_or(read_number(value, "/size/0", Ghost("size"@), Ghost("0"@)), 0),
        height: number_or(read_number(value, "/size/1", Ghost("size"@), Ghost("1"@)), 0),
        workspace: number_or(
            read_number(value, "/workspace/id", Ghost("workspace"@), Ghost("id"@)),
            i64::MIN,
        ),
        mapped: read_truth(value, "mapped"),
        hidden: read_truth(value, "hidden"),
    }
}

/// The output a value describes.
pub fn read_monitor(value: &serde_json::Value) -> (monitor: Monitor)
    ensures
        monitor@ == monitor_of(json::json_of(*value)),
{
    proof {
        reveal_strlit("/activeWorkspace/id");
        reveal_strlit("activeWorkspace");
        reveal_strlit("id");
        assert("/activeWorkspace/id"@ =~= seq!['/'] + "activeWorkspace"@ + seq!['/'] + "id"@);
    }
    let workspace = read_number(
        value,
        "/activeWorkspace/id",
        Ghost("activeWorkspace"@),
        Ghost("id"@),
    );
    let name = match get_field(value, "name") {
        Some(found) => match found.as_str() {
            Some(name) => Some(name.to_owned()),
            None => None,
        },
        None => None,
    };
    Monitor {
        name,
        workspace,
        focused: read_truth(value, "focused"),
        x: read_integer(value, "x"),
        y: read_integer(value, "y"),
    }
}

/// The windows of a list of values.
pub open spec fn clients_of(list: Seq<Json>) -> Seq<Client> {
    list.map_values(|value: Json| client_of(value))
}

/// The outputs of a list of values.
pub open spec fn monitors_of(list: Seq<Json>) -> Seq<MonitorView> {
    list.map_values(|value: Json| monitor_of(value))
}

/// The elements of a document that is a list, or what is wrong with it.
pub open spec fn listed(bytes: Seq<u8>, complaint: Seq<char>) -> Result<Seq<Json>, Seq<char>> {
    match json::document(bytes) {
        Err(cause) => Err(command::because("hyprctl returned invalid json"@, cause)),
        Ok(Json::List(list)) => Ok(list),
        Ok(_) => Err(complaint),
    }
}

/// The windows in an answer to `clients`.
pub fn read_clients(bytes: &Vec<u8>) -> (result: Result<Vec<Client>, Failure>)
    ensures
        match listed(bytes@, "hyprctl clients: not a list"@) {
            Ok(list) => result matches Ok(clients) && clients@ == clients_of(list),
            Err(message) => result matches Err(failure) && failure@ == message,
        },
{
    let value = match parse_document(bytes) {
        Ok(value) => value,
        Err(complaint) => {
            return Err(Failure::caused("hyprctl returned invalid json", complaint.as_str()));
        },
    };
    let list = match value.as_array() {
        Some(list) => list,
        None => {
            return Err(Failure::new("hyprctl clients: not a list"));
        },
    };
    let mut clients: Vec<Client> = Vec::new();
    let mut i: usize = 0;
    while i < list.len()
        invariant
            i <= list@.len(),
            clients@ == clients_of(json::list_of(list@)).take(i as int),
        decreases list@.len() - i,
    {
        clients.push(read_client(&list[i]));
        i += 1;
    }
    proof {
        assert(clients@ =~= clients_of(json::list_of(list@)));
    }
    Ok(clients)
}

/// The outputs in an answer to `monitors`.
pub fn read_monitors(bytes: &Vec<u8>) -> (result: Result<Vec<Monitor>, Failure>)
    ensures
        match listed(bytes@, "hyprctl monitors: not a list"@) {
            Ok(list) => result matches Ok(monitors) && monitor_list(monitors@) == monitors_of(list),
            Err(message) => result matches Err(failure) && failure@ == message,
        },
{
    let value = match parse_document(bytes) {
        Ok(value) => value,
        Err(complaint) => {
            return Err(Failure::caused("hyprctl returned invalid json", complaint.as_str()));
        },
    };
    let list = match value.as_array() {
        Some(list) => list,
        None => {
            return Err(Failure::new("hyprctl monitors: not a list"));
        },
    };
    let mut monitors: Vec<Monitor> = Vec::new();
    let mut i: usize = 0;
    proof {
        assert(monitor_list(monitors@) =~= monitors_of(json::list_of(list@)).take(0));
    }
    while i < list.len()
        invariant
            i <= list@.len(),
            monitor_list(monitors@) == monitors_of(json::list_of(list@)).take(i as int),
        decreases list@.len() - i,
    {
        let monitor = read_monitor(&list[i]);
        let ghost before = monitors@;
        monitors.push(monitor);
        proof {
            assert(monitor_list(monitors@) =~= monitor_list(before).push(monitor@));
        }
        i += 1;
    }
    proof {
        assert(monitor_list(monitors@) =~= monitors_of(json::list_of(list@)));
    }
    Ok(monitors)
}

/// The workspaces that outputs show.
pub open spec fn workspaces_of(monitors: Seq<MonitorView>) -> Seq<i64>
    decreases monitors.len(),
{
    if monitors.len() == 0 {
        Seq::empty()
    } else {
        let rest = workspaces_of(monitors.drop_last());
        match monitors.last().workspace {
            Some(workspace) => rest.push(workspace),
            None => rest,
        }
    }
}

/// The workspaces currently displayed.
pub fn active_workspaces(monitors: &Vec<Monitor>) -> (shown: Vec<i64>)
    ensures
        shown@ == workspaces_of(monitor_list(monitors@)),
{
    let ghost all = monitor_list(monitors@);
    let mut shown: Vec<i64> = Vec::new();
    let mut i: usize = 0;
    while i < monitors.len()
        invariant
            i <= monitors@.len(),
            all == monitor_list(monitors@),
            shown@ == workspaces_of(all.take(i as int)),
        decreases monitors@.len() - i,
    {
        proof {
            assert(all.take(i + 1).drop_last() =~= all.take(i as int));
            assert(all.take(i + 1).last() == monitors@[i as int]@);
        }
        if let Some(workspace) = monitors[i].workspace {
            shown.push(workspace);
        }
        i += 1;
    }
    proof {
        assert(all.take(i as int) =~= all);
    }
    shown
}

/// Whether a window can be seen right now.
pub open spec fn visible(client: Client, shown: Seq<i64>) -> bool {
    &&& client.mapped
    &&& !client.hidden
    &&& client.width > 0
    &&& client.height > 0
    &&& shown.contains(client.workspace)
}

/// A window's rectangle, in slurp's notation.
pub open spec fn box_of(client: Client) -> Seq<char> {
    text::decimal(client.x as int) + ","@ + text::decimal(client.y as int) + " "@ + text::decimal(
        client.width as int,
    ) + "x"@ + text::decimal(client.height as int)
}

/// The rectangles of the windows that can be seen, in order.
pub open spec fn boxes_of(clients: Seq<Client>, shown: Seq<i64>) -> Seq<Seq<char>>
    decreases clients.len(),
{
    if clients.len() == 0 {
        Seq::empty()
    } else {
        let rest = boxes_of(clients.drop_last(), shown);
        if visible(clients.last(), shown) {
            rest.push(box_of(clients.last()))
        } else {
            rest
        }
    }
}

fn is_shown(shown: &Vec<i64>, workspace: i64) -> (result: bool)
    ensures
        result == shown@.contains(workspace),
{
    let mut i: usize = 0;
    while i < shown.len()
        invariant
            i <= shown@.len(),
            forall|j: int| 0 <= j < i ==> shown@[j] != workspace,
        decreases shown@.len() - i,
    {
        if shown[i] == workspace {
            return true;
        }
        i += 1;
    }
    false
}

/// Rectangles of the windows you can actually see right now.
///
/// Filtered to the workspaces currently displayed: offering a window on some
/// other workspace would let you "pick" something invisible and capture whatever
/// happens to be in that screen area instead.
pub fn visible_windows(clients: &Vec<Client>, shown: &Vec<i64>) -> (boxes: Vec<String>)
    ensures
        text::texts(boxes@) == boxes_of(clients@, shown@),
{
    let mut boxes: Vec<String> = Vec::new();
    let mut i: usize = 0;
    proof {
        assert(text::texts(boxes@) =~= boxes_of(clients@.take(0), shown@));
    }
    while i < clients.len()
        invariant
            i <= clients@.len(),
            text::texts(boxes@) == boxes_of(clients@.take(i as int), shown@),
        decreases clients@.len() - i,
    {
        let client = clients[i];
        proof {
            assert(clients@.take(i + 1).drop_last() =~= clients@.take(i as int));
            assert(clients@.take(i + 1).last() == client);
        }
        if client.mapped && !client.hidden && client.width > 0 && client.height > 0 && is_shown(
            shown,
            client.workspace,
        ) {
            let mut area = String::new();
            text::push_decimal(&mut area, client.x);
            area.append(",");
            text::push_decimal(&mut area, client.y);
            area.append(" ");
            text::push_decimal(&mut area, client.width);
            area.append("x");
            text::push_decimal(&mut area, client.height);
            proof {
                assert(area@ =~= box_of(client));
                text::lemma_texts_push(boxes@, area);
            }
            boxes.push(area);
        }
        i += 1;
    }
    proof {
        assert(clients@.take(i as int) =~= clients@);
    }
    boxes
}

/// Where the first output with the focus stands in the list; its length when
/// there is none.
pub open spec fn first_focused(monitors: Seq<MonitorView>) -> int
    decreases monitors.len(),
{
    if monitors.len() == 0 || monitors[0].focused {
        0
    } else {
        1 + first_focused(monitors.drop_first())
    }
}

/// The name of the output with the focus, if it has one.
pub open spec fn focused_name(monitors: Seq<MonitorView>) -> Option<Seq<char>> {
    let i = first_focused(monitors);
    if 0 <= i < monitors.len() {
        monitors[i].name
    } else {
        None
    }
}

proof fn lemma_first_focused_is(monitors: Seq<MonitorView>, i: int)
    requires
        0 <= i <= monitors.len(),
        i < monitors.len() ==> monitors[i].focused,
        forall|j: int| 0 <= j < i ==> !(#[trigger] monitors[j]).focused,
    ensures
        first_focused(monitors) == i,
    decreases monitors.len(),
{
    if i > 0 {
        assert(!monitors[0].focused);
        let rest = monitors.drop_first();
        assert forall|j: int| 0 <= j < i - 1 implies !(#[trigger] rest[j]).focused by {
            assert(rest[j] == monitors[j + 1]);
        }
        lemma_first_focused_is(rest, i - 1);
    }
}

fn find_focused(monitors: &Vec<Monitor>) -> (index: usize)
    ensures
        index == first_focused(monitor_list(monitors@)),
        index <= monitors@.len(),
{
    let ghost all = monitor_list(monitors@);
    let mut i: usize = 0;
    while i < monitors.len() && !monitors[i].focused
        invariant
            i <= monitors@.len(),
            all == monitor_list(monitors@),
            forall|j: int| 0 <= j < i ==> !(#[trigger] all[j]).focused,
        decreases monitors@.len() - i,
    {
        proof {
            assert(all[i as int] == monitors@[i as int]@);
        }
        i += 1;
    }
    proof {
        if i < monitors@.len() {
            assert(all[i as int] == monitors@[i as int]@);
        }
        lemma_first_focused_is(all, i as int);
    }
    i
}

/// The name of the output with the focus.
pub fn focused_output(monitors: &Vec<Monitor>) -> (result: Result<String, Failure>)
    ensures
        match focused_name(monitor_list(monitors@)) {
            Some(name) => result matches Ok(text) && text@ == name,
            None => result matches Err(failure) && failure@ == "no focused output reported"@,
        },
{
    let i = find_focused(monitors);
    if i < monitors.len() {
        proof {
            assert(monitor_list(monitors@)[i as int] == monitors@[i as int]@);
        }
        if let Some(name) = &monitors[i].name {
            return Ok(name.as_str().to_owned());
        }
    }
    Err(Failure::new("no focused output reported"))
}

/// Where the corner of the output with the focus lies; the origin when there is no
/// such output.
pub open spec fn focused_place(monitors: Seq<MonitorView>) -> (i64, i64) {
    let i = first_focused(monitors);
    if 0 <= i < monitors.len() {
        (monitors[i].x, monitors[i].y)
    } else {
        (0, 0)
    }
}

/// Where the corner of the output with the focus lies.
pub fn focused_corner(monitors: &Vec<Monitor>) -> (corner: (i64, i64))
    ensures
        corner == focused_place(monitor_list(monitors@)),
{
    let i = find_focused(monitors);
    if i < monitors.len() {
        proof {
            assert(monitor_list(monitors@)[i as int] == monitors@[i as int]@);
        }
        (monitors[i].x, monitors[i].y)
    } else {
        (0, 0)
    }
}

/// The window in an answer to `activewindow`, if it can be read.
pub open spec fn window_in(bytes: Seq<u8>) -> Option<Client> {
    match json::document(bytes) {
        Ok(value) => Some(client_of(value)),
        Err(_) => None,
    }
}

/// The window in an answer to `activewindow`.
pub fn read_window(bytes: &Vec<u8>) -> (window: Option<Client>)
    ensures
        window == window_in(bytes@),
{
    match parse_document(bytes) {
        Ok(value) => Some(read_client(&value)),
        Err(_) => None,
    }
}

/// Every rectangle offered is that of a window that can be seen, and every window
/// that can be seen is offered.
pub proof fn law_exactly_the_visible_windows_are_offered(clients: Seq<Client>, shown: Seq<i64>)
    ensures
        forall|area: Seq<char>| #[trigger]
            boxes_of(clients, shown).contains(area) ==> exists|i: int|
                0 <= i < clients.len() && visible(#[trigger] clients[i], shown) && box_of(clients[i])
                    == area,
        forall|i: int|
            0 <= i < clients.len() && visible(#[trigger] clients[i], shown) ==> boxes_of(
                clients,
                shown,
            ).contains(box_of(clients[i])),
        boxes_of(clients, shown).len() <= clients.len(),
    decreases clients.len(),
{
    if clients.len() > 0 {
        let before = clients.drop_last();
        law_exactly_the_visible_windows_are_offered(before, shown);
        let rest = boxes_of(before, shown);
        let all = boxes_of(clients, shown);
        let last = clients.last();
        assert forall|area: Seq<char>| #[trigger] all.contains(area) implies exists|i: int|
            0 <= i < clients.len() && visible(#[trigger] clients[i], shown) && box_of(clients[i])
                == area by {
            if rest.contains(area) {
                let i = choose|i: int|
                    0 <= i < before.len() && visible(#[trigger] before[i], shown) && box_of(
                        before[i],
                    ) == area;
                assert(clients[i] == before[i]);
            } else {
                let k = choose|k: int| 0 <= k < all.len() && all[k] == area;
                if k < rest.len() {
                    assert(rest[k] == area);
                }
                assert(clients[clients.len() - 1] == last);
            }
        }
        assert forall|i: int|
            0 <= i < clients.len() && visible(#[trigger] clients[i], shown) implies all.contains(
            box_of(clients[i]),
        ) by {
            if i < before.len() {
                assert(before[i] == clients[i]);
                let k = choose|k: int| 0 <= k < rest.len() && rest[k] == box_of(before[i]);
                assert(all[k] == rest[k]);
            } else {
                assert(all[rest.len() as int] == box_of(last));
            }
        }
    }
}

/// Whether a number fits 32 bits.
pub open spec fn fits(n: i64) -> bool {
    i32::MIN <= n <= i32::MAX
}

/// Two numbers with a separator between them split into these numbers.
proof fn lemma_split_numbers(first: Seq<char>, separator: char, second: Seq<char>)
    requires
        forall|i: int| 0 <= i < first.len() ==> text::numeral(#[trigger] first[i]),
        !text::numeral(separator),
    ensures
        text::once_split(first + seq![separator] + second, separator) == Some((first, second)),
{
    let whole = first + seq![separator] + second;
    let n = first.len() as int;
    assert forall|j: int| 0 <= j < n implies whole[j] != separator by {
        assert(whole[j] == first[j]);
        assert(text::numeral(first[j]));
    }
    text::lemma_first_index_is(whole, separator, n);
    assert(whole.take(n) =~= first);
    assert(whole.skip(n + 1) =~= second);
}

/// The top left corner of a window, as two numbers.
spec fn corner_text(client: Client) -> Seq<char> {
    text::decimal(client.x as int) + seq![','] + text::decimal(client.y as int)
}

/// The extent of a window, as two numbers.
spec fn extent_text(client: Client) -> Seq<char> {
    text::decimal(client.width as int) + seq!['x'] + text::decimal(client.height as int)
}

/// A window's rectangle is its corner and its extent with a space between.
proof fn lemma_box_parts(client: Client)
    ensures
        box_of(client) == corner_text(client) + seq![' '] + extent_text(client),
{
    reveal_strlit(",");
    reveal_strlit(" ");
    reveal_strlit("x");
    assert(","@ =~= seq![',']);
    assert(" "@ =~= seq![' ']);
    assert("x"@ =~= seq!['x']);
    assert(box_of(client) =~= corner_text(client) + seq![' '] + extent_text(client));
}

/// There is no space in a window's corner.
proof fn lemma_no_space_in_the_corner(client: Client)
    ensures
        forall|j: int|
            0 <= j < corner_text(client).len() ==> #[trigger] corner_text(client)[j] != ' ',
{
    let x = text::decimal(client.x as int);
    let y = text::decimal(client.y as int);
    let corner = corner_text(client);
    text::lemma_decimal(client.x as int);
    text::lemma_decimal(client.y as int);
    assert forall|j: int| 0 <= j < corner.len() implies #[trigger] corner[j] != ' ' by {
        if j < x.len() {
            assert(corner[j] == x[j]);
            assert(text::numeral(x[j]));
        } else if j > x.len() {
            assert(corner[j] == y[j - x.len() - 1]);
            assert(text::numeral(y[j - x.len() - 1]));
        }
    }
}

/// The first space of a window's rectangle stands behind its corner.
proof fn lemma_box_splits(client: Client)
    ensures
        text::once_split(box_of(client), ' ') == Some((corner_text(client), extent_text(client))),
{
    let whole = box_of(client);
    let corner = corner_text(client);
    let n = corner.len() as int;
    lemma_box_parts(client);
    lemma_no_space_in_the_corner(client);
    assert forall|j: int| 0 <= j < n implies whole[j] != ' ' by {
        assert(whole[j] == corner[j]);
    }
    text::lemma_first_index_is(whole, ' ', n);
    assert(whole.take(n) =~= corner);
    assert(whole.skip(n + 1) =~= extent_text(client));
}

/// A window's rectangle has no white space around it.
proof fn lemma_box_is_bare(client: Client)
    ensures
        text::trimmed(box_of(client)) == box_of(client),
{
    let whole = box_of(client);
    let x = text::decimal(client.x as int);
    let h = text::decimal(client.height as int);
    lemma_box_parts(client);
    text::lemma_decimal(client.x as int);
    text::lemma_decimal(client.height as int);
    assert(whole[0] == x[0]);
    assert(text::numeral(x[0]));
    assert(whole.last() == h.last());
    assert(text::numeral(h[h.len() - 1]));
    assert(text::trimmed_start(whole) == whole);
    assert(text::trimmed_end(whole) == whole);
}

/// A window's corner reads as the numbers it was written from.
proof fn lemma_corner_splits(client: Client)
    ensures
        text::once_split(corner_text(client), ',') == Some(
            (text::decimal(client.x as int), text::decimal(client.y as int)),
        ),
{
    text::lemma_decimal(client.x as int);
    lemma_split_numbers(
        text::decimal(client.x as int),
        ',',
        text::decimal(client.y as int),
    );
}

/// A window's extent reads as the numbers it was written from.
proof fn lemma_extent_splits(client: Client)
    ensures
        text::once_split(extent_text(client), 'x') == Some(
            (text::decimal(client.width as int), text::decimal(client.height as int)),
        ),
{
    text::lemma_decimal(client.width as int);
    lemma_split_numbers(
        text::decimal(client.width as int),
        'x',
        text::decimal(client.height as int),
    );
}

/// A number that fits 32 bits reads as such.
proof fn lemma_decimal_is_i32(n: i64)
    requires
        fits(n),
    ensures
        text::is_i32(text::decimal(n as int)),
{
    text::lemma_decimal(n as int);
}

/// A text that splits into four numbers is a region.
proof fn lemma_region_of_numbers(
    whole: Seq<char>,
    origin: Seq<char>,
    size: Seq<char>,
    x: Seq<char>,
    y: Seq<char>,
    w: Seq<char>,
    h: Seq<char>,
)
    requires
        text::trimmed(whole) == whole,
        text::once_split(whole, ' ') == Some((origin, size)),
        text::once_split(origin, ',') == Some((x, y)),
        text::once_split(size, 'x') == Some((w, h)),
        text::is_i32(x),
        text::is_i32(y),
        text::is_i32(w),
        text::is_i32(h),
    ensures
        capture::region_from(whole) == Ok::<Seq<char>, Seq<char>>(whole),
{
}

/// The rectangle of a window is a region as the command line takes one, when its
/// numbers fit 32 bits.
pub proof fn law_a_windows_rectangle_is_a_region(client: Client)
    requires
        fits(client.x),
        fits(client.y),
        fits(client.width),
        fits(client.height),
    ensures
        capture::region_from(box_of(client)) == Ok::<Seq<char>, Seq<char>>(box_of(client)),
{
    lemma_box_is_bare(client);
    lemma_box_splits(client);
    lemma_corner_splits(client);
    lemma_extent_splits(client);
    lemma_decimal_is_i32(client.x);
    lemma_decimal_is_i32(client.y);
    lemma_decimal_is_i32(client.width);
    lemma_decimal_is_i32(client.height);
    lemma_region_of_numbers(
        box_of(client),
        corner_text(client),
        extent_text(client),
        text::decimal(client.x as int),
        text::decimal(client.y as int),
        text::decimal(client.width as int),
        text::decimal(client.height as int),
    );
}

/// The number at a place in a pair, under a name.
proof fn lemma_pair(value: Json, name: Seq<char>)
    requires
        value is Fields,
        value->Fields_0.contains_key(name),
        value->Fields_0[name] is List,
    ensures
        ({
            let pair = value->Fields_0[name]->List_0;
            &&& number_in(value, name, "0"@) == json::as_integer(
                if pair.len() > 0 {
                    Some(pair[0])
                } else {
                    None
                },
            )
            &&& number_in(value, name, "1"@) == json::as_integer(
                if pair.len() > 1 {
                    Some(pair[1])
                } else {
                    None
                },
            )
        }),
{
    reveal_strlit("0");
    reveal_strlit("1");
    reveal_with_fuel(Json::walk, 3);
    reveal_with_fuel(text::digits_value, 2);
    assert("0"@.drop_last() =~= Seq::<char>::empty());
    assert("1"@.drop_last() =~= Seq::<char>::empty());
    assert(text::all_digits("0"@) && text::all_digits("1"@));
    assert(text::digits_value("0"@) == 0 && text::digits_value("1"@) == 1);
    let first = seq![name, "0"@];
    let second = seq![name, "1"@];
    assert(first.skip(1) =~= seq!["0"@]);
    assert(second.skip(1) =~= seq!["1"@]);
    assert(first.skip(1).skip(1) =~= Seq::<Seq<char>>::empty());
    assert(second.skip(1).skip(1) =~= Seq::<Seq<char>>::empty());
    let inner = value->Fields_0[name];
    assert(value.walk(first) == inner.walk(first.skip(1)));
    assert(value.walk(second) == inner.walk(second.skip(1)));
}

/// The number under a name, under a name.
proof fn lemma_nested(value: Json, name: Seq<char>, inner: Seq<char>)
    requires
        value is Fields,
        value->Fields_0.contains_key(name),
        value->Fields_0[name] is Fields,
    ensures
        number_in(value, name, inner) == json::as_integer(value->Fields_0[name].field(inner)),
{
    reveal_with_fuel(Json::walk, 3);
    let path = seq![name, inner];
    assert(path.skip(1) =~= seq![inner]);
    assert(path.skip(1).skip(1) =~= Seq::<Seq<char>>::empty());
    assert(value.walk(path) == value->Fields_0[name].walk(path.skip(1)));
}

/// Every part of a window is read from its own place: the corner from the pair `at`,
/// the extent from the pair `size`, across first, the workspace from its `id`, and
/// the two flags from the fields of their names.
pub proof fn law_a_window_is_read_where_it_is_said(
    fields: Map<Seq<char>, Json>,
    at: Seq<Json>,
    size: Seq<Json>,
    workspace: Map<Seq<char>, Json>,
    x: i64,
    y: i64,
    width: i64,
    height: i64,
    id: i64,
    mapped: bool,
    hidden: bool,
)
    requires
        fields.contains_key("at"@) && fields["at"@] == Json::List(at),
        at.len() == 2 && at[0] == Json::Integer(x as int) && at[1] == Json::Integer(y as int),
        fields.contains_key("size"@) && fields["size"@] == Json::List(size),
        size.len() == 2 && size[0] == Json::Integer(width as int) && size[1] == Json::Integer(
            height as int,
        ),
        fields.contains_key("workspace"@) && fields["workspace"@] == Json::Fields(workspace),
        workspace.contains_key("id"@) && workspace["id"@] == Json::Integer(id as int),
        fields.contains_key("mapped"@) && fields["mapped"@] == Json::Bool(mapped),
        fields.contains_key("hidden"@) && fields["hidden"@] == Json::Bool(hidden),
    ensures
        ({
            let client = client_of(Json::Fields(fields));
            &&& client.x == x && client.y == y
            &&& client.width == width && client.height == height
            &&& client.workspace == id
            &&& client.mapped == mapped && client.hidden == hidden
        }),
{
    let value = Json::Fields(fields);
    lemma_pair(value, "at"@);
    lemma_pair(value, "size"@);
    lemma_nested(value, "workspace"@, "id"@);
}

/// Every part of an output is read from its own place.
pub proof fn law_an_output_is_read_where_it_is_said(
    fields: Map<Seq<char>, Json>,
    workspace: Map<Seq<char>, Json>,
    name: Seq<char>,
    x: i64,
    y: i64,
    id: i64,
    focused: bool,
)
    requires
        fields.contains_key("name"@) && fields["name"@] == Json::Text(name),
        fields.contains_key("x"@) && fields["x"@] == Json::Integer(x as int),
        fields.contains_key("y"@) && fields["y"@] == Json::Integer(y as int),
        fields.contains_key("focused"@) && fields["focused"@] == Json::Bool(focused),
        fields.contains_key("activeWorkspace"@) && fields["activeWorkspace"@] == Json::Fields(
            workspace,
        ),
        workspace.contains_key("id"@) && workspace["id"@] == Json::Integer(id as int),
    ensures
        ({
            let monitor = monitor_of(Json::Fields(fields));
            &&& monitor.name == Some(name)
            &&& monitor.x == x && monitor.y == y
            &&& monitor.workspace == Some(id)
            &&& monitor.focused == focused
        }),
{
    lemma_nested(Json::Fields(fields), "activeWorkspace"@, "id"@);
}

/// What does not say where it is, how large or on which workspace, is at the corner,
/// has no extent, and is on none that an output could show; what does not say so is
/// neither mapped nor hidden nor focused.
pub proof fn law_what_is_not_said_is_nothing(value: Json)
    requires
        !(value is Fields) && !(value is List),
    ensures
        client_of(value) == (Client {
            x: 0,
            y: 0,
            width: 0,
            height: 0,
            workspace: i64::MIN,
            mapped: false,
            hidden: false,
        }),
        monitor_of(value) == (MonitorView {
            name: None,
            workspace: None,
            focused: false,
            x: 0,
            y: 0,
        }),
{
    reveal_with_fuel(Json::walk, 2);
}

/// A window shows when it is there, is not put away, has an extent both ways, and is
/// on a workspace that an output shows. Exactly those workspaces are shown.
pub proof fn law_a_window_shows_where_an_output_shows_it(
    client: Client,
    monitors: Seq<MonitorView>,
)
    ensures
        visible(client, workspaces_of(monitors)) <==> client.mapped && !client.hidden
            && client.width > 0 && client.height > 0 && (exists|i: int|
            0 <= i < monitors.len() && (#[trigger] monitors[i]).workspace == Some(
                client.workspace,
            )),
{
    lemma_workspaces(monitors, client.workspace);
}

proof fn lemma_workspaces(monitors: Seq<MonitorView>, workspace: i64)
    ensures
        workspaces_of(monitors).contains(workspace) <==> exists|i: int|
            0 <= i < monitors.len() && (#[trigger] monitors[i]).workspace == Some(workspace),
    decreases monitors.len(),
{
    if monitors.len() > 0 {
        let before = monitors.drop_last();
        let rest = workspaces_of(before);
        let all = workspaces_of(monitors);
        lemma_workspaces(before, workspace);
        if rest.contains(workspace) {
            let i = choose|i: int|
                0 <= i < before.len() && (#[trigger] before[i]).workspace == Some(workspace);
            assert(monitors[i] == before[i]);
            let k = choose|k: int| 0 <= k < rest.len() && rest[k] == workspace;
            assert(all[k] == workspace);
        } else {
            if all.contains(workspace) {
                let k = choose|k: int| 0 <= k < all.len() && all[k] == workspace;
                if k < rest.len() {
                    assert(rest[k] == workspace);
                }
                assert(monitors[monitors.len() - 1].workspace == Some(workspace));
            }
            if exists|i: int|
                0 <= i < monitors.len() && (#[trigger] monitors[i]).workspace == Some(workspace) {
                let i = choose|i: int|
                    0 <= i < monitors.len() && (#[trigger] monitors[i]).workspace == Some(
                        workspace,
                    );
                if i < before.len() {
                    assert(before[i] == monitors[i]);
                }
                assert(all[rest.len() as int] == workspace);
            }
        }
    }
}

/// The rectangle of a window reads as the window's own numbers: its corner across and
/// down, then its extent across and down.
pub proof fn law_a_rectangle_reads_as_its_window(client: Client)
    ensures
        text::once_split(box_of(client), ' ') matches Some((corner, extent)) && {
            &&& text::once_split(corner, ',') matches Some((x, y)) && text::decimal_value(x)
                == Some(client.x as int) && text::decimal_value(y) == Some(client.y as int)
            &&& text::once_split(extent, 'x') matches Some((width, height))
                && text::decimal_value(width) == Some(client.width as int) && text::decimal_value(
                height,
            ) == Some(client.height as int)
        },
{
    lemma_box_splits(client);
    lemma_corner_splits(client);
    lemma_extent_splits(client);
    text::lemma_decimal(client.x as int);
    text::lemma_decimal(client.y as int);
    text::lemma_decimal(client.width as int);
    text::lemma_decimal(client.height as int);
}

/// The windows are offered in the order in which they were listed.
pub proof fn law_windows_are_offered_in_order(
    first: Seq<Client>,
    second: Seq<Client>,
    shown: Seq<i64>,
)
    ensures
        boxes_of(first + second, shown) == boxes_of(first, shown) + boxes_of(second, shown),
    decreases second.len(),
{
    let whole = first + second;
    if second.len() == 0 {
        assert(whole =~= first);
        assert(boxes_of(first, shown) + boxes_of(second, shown) =~= boxes_of(first, shown));
    } else {
        law_windows_are_offered_in_order(first, second.drop_last(), shown);
        assert(whole.drop_last() =~= first + second.drop_last());
        assert(whole.last() == second.last());
        assert(boxes_of(whole, shown) =~= boxes_of(first, shown) + boxes_of(second, shown));
    }
}

/// The output in focus is the first that says it is: its name and its corner are the
/// ones given. With none in focus there is no name, and the corner is the outermost.
pub proof fn law_the_output_in_focus_is_the_first_focused(monitors: Seq<MonitorView>, i: int)
    ensures
        0 <= i < monitors.len() && monitors[i].focused && (forall|j: int|
            0 <= j < i ==> !(#[trigger] monitors[j]).focused) ==> {
            &&& focused_name(monitors) == monitors[i].name
            &&& focused_place(monitors) == (monitors[i].x, monitors[i].y)
        },
        (forall|j: int| 0 <= j < monitors.len() ==> !(#[trigger] monitors[j]).focused) ==> {
            &&& focused_name(monitors) is None
            &&& focused_place(monitors) == (0i64, 0i64)
        },
{
    if 0 <= i < monitors.len() && monitors[i].focused && (forall|j: int|
        0 <= j < i ==> !(#[trigger] monitors[j]).focused) {
        lemma_first_focused_is(monitors, i);
    }
    if forall|j: int| 0 <= j < monitors.len() ==> !(#[trigger] monitors[j]).focused {
        lemma_first_focused_is(monitors, monitors.len() as int);
    }
}

/// The answer is the very bytes that were printed; one that failed names what was
/// asked for, and one that was not run says why.
pub proof fn law_the_answer_is_what_was_printed(what: Seq<char>, exit: Exit, cause: String)
    ensures
        exit.success ==> answer(what, Ok(exit)) == Ok::<Seq<u8>, Seq<char>>(exit.stdout@),
        !exit.success ==> answer(what, Ok(exit)) == Err::<Seq<u8>, Seq<char>>(
            "hyprctl "@ + what + " -j failed"@,
        ),
        answer(what, Err(cause)) matches Err(message) && text::ends_with(message, cause@),
        asking(what).program == "hyprctl"@,
        asking(what).args == seq![what, "-j"@],
{
    text::lemma_ends_with(
        "could not run `hyprctl` - window and screen modes need Hyprland"@ + ": "@,
        cause@,
    );
}

/// A list is read element by element, in its order, and nothing but a list is read.
pub proof fn law_a_list_is_read_in_order(
    bytes: Seq<u8>,
    list: Seq<Json>,
    complaint: Seq<char>,
    i: int,
)
    ensures
        json::document(bytes) == Ok::<Json, Seq<char>>(Json::List(list)) ==> listed(bytes, complaint)
            == Ok::<Seq<Json>, Seq<char>>(list),
        json::document(bytes) matches Ok(value) ==> (!(value is List) ==> listed(bytes, complaint)
            == Err::<Seq<Json>, Seq<char>>(complaint)),
        json::document(bytes) matches Err(cause) ==> (listed(bytes, complaint) matches Err(message)
            && text::ends_with(message, cause)),
        json::document(bytes) matches Ok(value) ==> window_in(bytes) == Some(client_of(value)),
        json::document(bytes) is Err ==> window_in(bytes) is None,
        clients_of(list).len() == list.len(),
        monitors_of(list).len() == list.len(),
        0 <= i < list.len() ==> clients_of(list)[i] == client_of(list[i]) && monitors_of(list)[i]
            == monitor_of(list[i]),
{
    if let Err(cause) = json::document(bytes) {
        text::lemma_ends_with("hyprctl returned invalid json"@ + ": "@, cause);
    }
}

} // verus!
