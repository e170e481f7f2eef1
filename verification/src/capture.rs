//! Screen capture: which programs to run, and what to make of what they say.
//!
//! Unfrozen, the region is selected first and only that region is grabbed.
//! Frozen, the screen is held still while you drag, and the grab happens while
//! the freeze is still up, so that what you selected is what you get.
use crate::command;
use crate::command::{decode_strictly, read_printed, Exit, Failure, Invocation, InvocationView};
use crate::text;
use crate::text::{complain_of_i32, parses_as_i32, split_once, trim};
use vstd::prelude::*;

verus! {

/// How long a freeze takes to be on screen, in milliseconds. Racing it shows the
/// live screen for the first frames of the drag.
pub const FREEZE_DELAY: u64 = 200;

/// A region in compositor output space, in slurp's own `X,Y WxH` notation. Kept
/// as text so that it reaches grim without reformatting.
#[derive(Debug)]
pub struct Region {
    text: String,
}

impl View for Region {
    type V = Seq<char>;

    closed spec fn view(&self) -> Seq<char> {
        self.text@
    }
}

/// The first of the four numbers of a geometry that is not one, by its name, and
/// what it reads.
pub open spec fn odd_number(x: Seq<char>, y: Seq<char>, w: Seq<char>, h: Seq<char>) -> Option<
    (Seq<char>, Seq<char>),
> {
    if !text::is_i32(x) {
        Some(("x"@, x))
    } else if !text::is_i32(y) {
        Some(("y"@, y))
    } else if !text::is_i32(w) {
        Some(("width"@, w))
    } else if !text::is_i32(h) {
        Some(("height"@, h))
    } else {
        None
    }
}

/// The region a geometry stands for: the text itself, without white space around
/// it, when it reads `X,Y WxH` with four whole numbers; otherwise what is wrong
/// with it.
pub open spec fn region_from(geometry: Seq<char>) -> Result<Seq<char>, Seq<char>> {
    let whole = text::trimmed(geometry);
    match text::once_split(whole, ' ') {
        None => Err("expected geometry as 'X,Y WxH', got '"@ + whole + "'"@),
        Some((origin, size)) => match text::once_split(origin, ',') {
            None => Err("expected origin as 'X,Y', got '"@ + origin + "'"@),
            Some((x, y)) => match text::once_split(size, 'x') {
                None => Err("expected size as 'WxH', got '"@ + size + "'"@),
                Some((w, h)) => match odd_number(x, y, w, h) {
                    Some((label, value)) => Err(
                        command::because(
                            label + " is not a number in '"@ + whole + "'"@,
                            text::i32_complaint(value),
                        ),
                    ),
                    None => Ok(whole),
                },
            },
        },
    }
}

/// What a region, or the lack of one, comes to.
pub open spec fn parsed_view(result: Result<Region, Failure>) -> Result<Seq<char>, Seq<char>> {
    match result {
        Ok(region) => Ok(region@),
        Err(failure) => Err(failure@),
    }
}

impl Region {
    pub fn as_str(&self) -> (text: &str)
        ensures
            text@ == self@,
    {
        self.text.as_str()
    }

    /// Accept a region given on the command line instead of dragged, in the same
    /// `X,Y WxH` form slurp emits. Lets the OCR path be scripted, tested, and
    /// re-run against a fixed area (subtitles, a lecture slide).
    pub fn parse(geometry: &str) -> (result: Result<Self, Failure>)
        ensures
            parsed_view(result) == region_from(geometry@),
    {
        let bare = trim(geometry);
        let (origin, size) = match split_once(bare.as_str(), ' ') {
            Some(parts) => parts,
            None => {
                return Err(
                    Failure::quoting("expected geometry as 'X,Y WxH', got '", bare.as_str(), "'"),
                );
            },
        };
        let (x, y) = match split_once(origin.as_str(), ',') {
            Some(parts) => parts,
            None => {
                return Err(
                    Failure::quoting("expected origin as 'X,Y', got '", origin.as_str(), "'"),
                );
            },
        };
        let (w, h) = match split_once(size.as_str(), 'x') {
            Some(parts) => parts,
            None => {
                return Err(Failure::quoting("expected size as 'WxH', got '", size.as_str(), "'"));
            },
        };
        let odd: Option<(&str, &String)> = if !parses_as_i32(x.as_str()) {
            Some(("x", &x))
        } else if !parses_as_i32(y.as_str()) {
            Some(("y", &y))
        } else if !parses_as_i32(w.as_str()) {
            Some(("width", &w))
        } else if !parses_as_i32(h.as_str()) {
            Some(("height", &h))
        } else {
            None
        };
        match odd {
            Some((label, value)) => {
                let mut message = label.to_owned();
                message.append(" is not a number in '");
                message.append(bare.as_str());
                message.append("'");
                let complaint = complain_of_i32(value.as_str());
                Err(Failure::caused(message.as_str(), complaint.as_str()))
            },
            None => Ok(Region { text: bare }),
        }
    }
}

/// Selecting a region by dragging.
pub open spec fn selecting() -> InvocationView {
    InvocationView { program: "slurp"@, args: Seq::empty() }
}

/// Selecting one of the rectangles given on standard input.
pub open spec fn picking() -> InvocationView {
    InvocationView { program: "slurp"@, args: seq!["-r"@] }
}

/// Grabbing a region as an uncompressed image.
pub open spec fn grabbing(region: Seq<char>) -> InvocationView {
    InvocationView { program: "grim"@, args: seq!["-t"@, "ppm"@, "-g"@, region, "-"@] }
}

/// Grabbing a region as a PNG.
pub open spec fn grabbing_png(region: Seq<char>) -> InvocationView {
    InvocationView { program: "grim"@, args: seq!["-t"@, "png"@, "-g"@, region, "-"@] }
}

/// Grabbing a whole output as a PNG.
pub open spec fn grabbing_output(output: Seq<char>) -> InvocationView {
    InvocationView { program: "grim"@, args: seq!["-t"@, "png"@, "-o"@, output, "-"@] }
}

/// Holding the screen still.
pub open spec fn freezing() -> InvocationView {
    InvocationView { program: "hyprpicker"@, args: seq!["-r"@, "-z"@, "-d"@, "-q"@] }
}

/// Ask the user to drag a region.
pub fn select_region() -> (command: Invocation)
    ensures
        command@ == selecting(),
{
    Invocation::new("slurp")
}

/// Ask the user to pick one of the rectangles handed over on standard input: the
/// command, and what to hand over, one rectangle a line.
pub fn select_from(boxes: &Vec<String>) -> (result: (Invocation, String))
    ensures
        result.0@ == picking(),
        result.1@ == text::joined(text::texts(boxes@), "\n"@),
{
    let command = Invocation::new("slurp").with("-r");
    proof {
        assert(command@ =~= picking());
    }
    (command, text::join(boxes, "\n"))
}

/// Capture one region straight to memory as PPM.
///
/// PPM is uncompressed, which is exactly what recognition wants: it is decoded
/// natively and the PNG round trip is skipped entirely.
pub fn grab(region: &Region) -> (command: Invocation)
    ensures
        command@ == grabbing(region@),
{
    let command = Invocation::new("grim").with("-t").with("ppm").with("-g").with(
        region.as_str(),
    ).with("-");
    proof {
        assert(command@ =~= grabbing(region@));
    }
    command
}

/// Capture one region as PNG.
pub fn grab_png(region: &Region) -> (command: Invocation)
    ensures
        command@ == grabbing_png(region@),
{
    let command = Invocation::new("grim").with("-t").with("png").with("-g").with(
        region.as_str(),
    ).with("-");
    proof {
        assert(command@ =~= grabbing_png(region@));
    }
    command
}

/// Capture one output as PNG.
pub fn grab_output_png(output: &str) -> (command: Invocation)
    ensures
        command@ == grabbing_output(output@),
{
    let command = Invocation::new("grim").with("-t").with("png").with("-o").with(output).with("-");
    proof {
        assert(command@ =~= grabbing_output(output@));
    }
    command
}

/// Hold the screen still: a static copy of every output, painted under slurp's
/// selection surface. `-z` drops the zoom lens and `-d` the colour preview, both
/// of which would otherwise be painted into the captured image.
pub fn freeze() -> (command: Invocation)
    ensures
        command@ == freezing(),
{
    let command = Invocation::new("hyprpicker").with("-r").with("-z").with("-d").with("-q");
    proof {
        assert(command@ =~= freezing());
    }
    command
}

/// What the selection came to, given what became of slurp: the region, nothing
/// when the drag was cancelled, or what went wrong.
pub open spec fn choice(outcome: Result<Exit, String>) -> Result<Option<Seq<char>>, Seq<char>> {
    match outcome {
        Err(cause) => Err(
            command::because("could not run `slurp` - is it installed?"@, cause@),
        ),
        Ok(exit) => if !exit.success {
            Ok(None)
        } else if !vstd::utf8::valid_utf8(exit.stdout@) {
            Err(
                command::because(
                    "slurp returned non-utf8"@,
                    command::utf8_complaint(exit.stdout@),
                ),
            )
        } else {
            let geometry = text::trimmed(vstd::utf8::decode_utf8(exit.stdout@));
            if geometry.len() == 0 {
                Ok(None)
            } else {
                Ok(Some(geometry))
            }
        },
    }
}

/// A selection, by content.
pub open spec fn choice_view(result: Result<Option<Region>, Failure>) -> Result<
    Option<Seq<char>>,
    Seq<char>,
> {
    match result {
        Ok(Some(region)) => Ok(Some(region@)),
        Ok(None) => Ok(None),
        Err(failure) => Err(failure@),
    }
}

/// The region that was dragged. `Ok(None)` means the drag was cancelled: slurp
/// exits non-zero then, which is not an error.
pub fn selected(outcome: Result<Exit, String>) -> (result: Result<Option<Region>, Failure>)
    ensures
        choice_view(result) == choice(outcome),
{
    match outcome {
        Err(cause) => Err(
            Failure::caused("could not run `slurp` - is it installed?", cause.as_str()),
        ),
        Ok(exit) => {
            if !exit.success {
                return Ok(None);
            }
            match decode_strictly(exit.stdout) {
                Err(complaint) => Err(
                    Failure::caused("slurp returned non-utf8", complaint.as_str()),
                ),
                Ok(whole) => {
                    let geometry = trim(whole.as_str());
                    if geometry.as_str().is_empty() {
                        Ok(None)
                    } else {
                        Ok(Some(Region { text: geometry }))
                    }
                },
            }
        },
    }
}

/// The image that was grabbed, or what went wrong.
pub open spec fn grab_outcome(outcome: Result<Exit, String>) -> Result<Seq<u8>, Seq<char>> {
    match outcome {
        Err(cause) => Err(command::because("could not run `grim` - is it installed?"@, cause@)),
        Ok(exit) => if !exit.success {
            Err(command::because("grim failed"@, command::printed(exit.stderr@)))
        } else if exit.stdout@.len() == 0 {
            Err("grim produced an empty capture"@)
        } else {
            Ok(exit.stdout@)
        },
    }
}

/// An image or a failure, by content.
pub open spec fn image_view(result: Result<Vec<u8>, Failure>) -> Result<Seq<u8>, Seq<char>> {
    match result {
        Ok(image) => Ok(image@),
        Err(failure) => Err(failure@),
    }
}

/// The image that was grabbed.
pub fn grabbed(outcome: Result<Exit, String>) -> (result: Result<Vec<u8>, Failure>)
    ensures
        image_view(result) == grab_outcome(outcome),
{
    match outcome {
        Err(cause) => Err(
            Failure::caused("could not run `grim` - is it installed?", cause.as_str()),
        ),
        Ok(exit) => {
            if !exit.success {
                let said = read_printed(&exit.stderr);
                return Err(Failure::caused("grim failed", said.as_str()));
            }
            if exit.stdout.len() == 0 {
                return Err(Failure::new("grim produced an empty capture"));
            }
            Ok(exit.stdout)
        },
    }
}

/// An image, nothing, or a failure, by content.
pub open spec fn capture_view(result: Result<Option<Vec<u8>>, Failure>) -> Result<
    Option<Seq<u8>>,
    Seq<char>,
> {
    match result {
        Ok(Some(image)) => Ok(Some(image@)),
        Ok(None) => Ok(None),
        Err(failure) => Err(failure@),
    }
}

/// What an interactive capture does next.
#[derive(Debug)]
pub enum Interactive {
    /// Put up the freeze: start this, leave it running, and say with [`frozen`]
    /// whether it started.
    Freeze(Invocation),
    /// Run this, and hand what became of it to [`dragged`]. `held` says whether
    /// the freeze is up.
    Select { held: bool, command: Invocation },
    /// Run this, and hand what became of it to [`finished`]. `held` says whether
    /// the freeze is up.
    Grab { held: bool, command: Invocation },
    /// Take the freeze down, and go on with [`released`].
    Release(Result<Option<Vec<u8>>, Failure>),
    /// The image, nothing when the drag was cancelled, or what went wrong.
    Done(Result<Option<Vec<u8>>, Failure>),
}

pub enum InteractiveView {
    Freeze(InvocationView),
    Select { held: bool, command: InvocationView },
    Grab { held: bool, command: InvocationView },
    Release(Result<Option<Seq<u8>>, Seq<char>>),
    Done(Result<Option<Seq<u8>>, Seq<char>>),
}

impl View for Interactive {
    type V = InteractiveView;

    open spec fn view(&self) -> InteractiveView {
        match self {
            Interactive::Freeze(command) => InteractiveView::Freeze(command@),
            Interactive::Select { held, command } => InteractiveView::Select {
                held: *held,
                command: command@,
            },
            Interactive::Grab { held, command } => InteractiveView::Grab {
                held: *held,
                command: command@,
            },
            Interactive::Release(result) => InteractiveView::Release(capture_view(*result)),
            Interactive::Done(result) => InteractiveView::Done(capture_view(*result)),
        }
    }
}

/// The end of an interactive capture: the freeze comes down first if it is up.
pub open spec fn ended(held: bool, result: Result<Option<Seq<u8>>, Seq<char>>) -> InteractiveView {
    if held {
        InteractiveView::Release(result)
    } else {
        InteractiveView::Done(result)
    }
}

/// How an interactive capture starts: with the freeze, if that is wanted.
pub open spec fn first_move(freeze: bool) -> InteractiveView {
    if freeze {
        InteractiveView::Freeze(freezing())
    } else {
        InteractiveView::Select { held: false, command: selecting() }
    }
}

/// How it goes on once a region was dragged: exactly that region is grabbed.
pub open spec fn move_after_drag(held: bool, outcome: Result<Exit, String>) -> InteractiveView {
    match choice(outcome) {
        Err(message) => ended(held, Err(message)),
        Ok(None) => ended(held, Ok(None)),
        Ok(Some(region)) => InteractiveView::Grab { held, command: grabbing(region) },
    }
}

/// How it goes on once the region was grabbed.
pub open spec fn move_after_grab(held: bool, outcome: Result<Exit, String>) -> InteractiveView {
    ended(
        held,
        match grab_outcome(outcome) {
            Err(message) => Err(message),
            Ok(image) => Ok(Some(image)),
        },
    )
}

fn end(held: bool, result: Result<Option<Vec<u8>>, Failure>) -> (next: Interactive)
    ensures
        next@ == ended(held, capture_view(result)),
{
    if held {
        Interactive::Release(result)
    } else {
        Interactive::Done(result)
    }
}

/// Drag a region and capture it.
///
/// With `freeze` the screen is held still for the duration, and the grab happens
/// before it is released - so what you selected is what you get, even if the
/// window below was playing a video.
pub fn interactive(freeze: bool) -> (next: Interactive)
    ensures
        next@ == first_move(freeze),
{
    if freeze {
        Interactive::Freeze(self::freeze())
    } else {
        Interactive::Select { held: false, command: select_region() }
    }
}

/// Go on once the freeze was put up, or could not be: that is no failure, there is
/// just nothing to take down.
pub fn frozen(started: bool) -> (next: Interactive)
    ensures
        next@ == (InteractiveView::Select { held: started, command: selecting() }),
{
    Interactive::Select { held: started, command: select_region() }
}

/// Go on once the region was dragged: grab exactly that region.
pub fn dragged(held: bool, outcome: Result<Exit, String>) -> (next: Interactive)
    ensures
        next@ == move_after_drag(held, outcome),
{
    match selected(outcome) {
        Err(failure) => end(held, Err(failure)),
        Ok(None) => end(held, Ok(None)),
        Ok(Some(region)) => Interactive::Grab { held, command: grab(&region) },
    }
}

/// Go on once the region was grabbed.
pub fn finished(held: bool, outcome: Result<Exit, String>) -> (next: Interactive)
    ensures
        next@ == move_after_grab(held, outcome),
{
    match grabbed(outcome) {
        Err(failure) => end(held, Err(failure)),
        Ok(image) => end(held, Ok(Some(image))),
    }
}

/// End once the freeze was taken down.
pub fn released(result: Result<Option<Vec<u8>>, Failure>) -> (next: Interactive)
    ensures
        next@ == InteractiveView::Done(capture_view(result)),
{
    Interactive::Done(result)
}

/// How an interactive capture goes on, given whether the freeze started and what
/// became of a program.
pub open spec fn next_move(
    step: InteractiveView,
    started: bool,
    outcome: Result<Exit, String>,
) -> InteractiveView {
    match step {
        InteractiveView::Freeze(_) => InteractiveView::Select {
            held: started,
            command: selecting(),
        },
        InteractiveView::Select { held, .. } => move_after_drag(held, outcome),
        InteractiveView::Grab { held, .. } => move_after_grab(held, outcome),
        InteractiveView::Release(result) => InteractiveView::Done(result),
        InteractiveView::Done(result) => InteractiveView::Done(result),
    }
}

/// An interactive capture after so many moves.
pub open spec fn after_moves(
    freeze: bool,
    started: bool,
    outcomes: Seq<Result<Exit, String>>,
    n: nat,
) -> InteractiveView
    decreases n,
{
    if n == 0 {
        first_move(freeze)
    } else {
        next_move(
            after_moves(freeze, started, outcomes, (n - 1) as nat),
            started,
            outcomes[n - 1],
        )
    }
}

/// The screen is held from before the selection until after the grab. Where a
/// freeze is wanted it is the first thing that is put up; where it started, it is
/// up through the selection and the grab, and it comes down before every end:
/// the image, a cancelled drag or a failure. Where it is not wanted, or did not
/// start, nothing is held and nothing is taken down.
pub proof fn law_the_screen_is_held_until_after_the_grab(
    freeze: bool,
    started: bool,
    outcomes: Seq<Result<Exit, String>>,
    n: nat,
)
    ensures
        match after_moves(freeze, started, outcomes, n) {
            InteractiveView::Freeze(command) => n == 0 && freeze && command == freezing(),
            InteractiveView::Select { held, command } => {
                &&& held == (freeze && started)
                &&& command == selecting()
                &&& freeze ==> n == 1
                &&& !freeze ==> n == 0
            },
            InteractiveView::Grab { held, .. } => {
                &&& held == (freeze && started)
                &&& n > 0
                &&& after_moves(freeze, started, outcomes, (n - 1) as nat) is Select
            },
            InteractiveView::Release(_) => {
                &&& freeze && started
                &&& n > 0
                &&& {
                    let before = after_moves(freeze, started, outcomes, (n - 1) as nat);
                    before is Select || before is Grab
                }
            },
            InteractiveView::Done(result) => freeze && started ==> exists|k: nat|
                k < n && #[trigger] after_moves(freeze, started, outcomes, k)
                    == InteractiveView::Release(result),
        },
    decreases n,
{
    if n > 0 {
        let m = (n - 1) as nat;
        law_the_screen_is_held_until_after_the_grab(freeze, started, outcomes, m);
        let before = after_moves(freeze, started, outcomes, m);
        if let InteractiveView::Done(result) = before {
            if freeze && started {
                let k = choose|k: nat|
                    k < m && #[trigger] after_moves(freeze, started, outcomes, k)
                        == InteractiveView::Release(result);
                assert(k < n);
            }
        }
    }
}

/// What an interactive capture comes to, given what became of the selection and
/// of the grab.
pub open spec fn interactive_result(
    selection: Result<Exit, String>,
    grab: Result<Exit, String>,
) -> Result<Option<Seq<u8>>, Seq<char>> {
    match choice(selection) {
        Err(message) => Err(message),
        Ok(None) => Ok(None),
        Ok(Some(_)) => match grab_outcome(grab) {
            Err(message) => Err(message),
            Ok(image) => Ok(Some(image)),
        },
    }
}

/// An interactive capture ends after at most four moves. A failed selection fails
/// it, a cancelled one gives nothing, and else it gives what the grab gave; the
/// freeze, and whether it started, make no difference to that.
pub proof fn law_an_interactive_capture_ends(
    freeze: bool,
    started: bool,
    outcomes: Seq<Result<Exit, String>>,
    n: nat,
)
    requires
        n >= 4,
    ensures
        after_moves(freeze, started, outcomes, n) == InteractiveView::Done(
            if freeze {
                interactive_result(outcomes[1], outcomes[2])
            } else {
                interactive_result(outcomes[0], outcomes[1])
            },
        ),
    decreases n,
{
    if n == 4 {
        reveal_with_fuel(after_moves, 5);
    } else {
        law_an_interactive_capture_ends(freeze, started, outcomes, (n - 1) as nat);
    }
}

/// A region that was accepted is accepted again as it stands, and reaches grim
/// letter for letter.
pub proof fn law_a_region_round_trips(geometry: Seq<char>)
    ensures
        region_from(geometry) matches Ok(region) ==> {
            &&& region_from(region) == Ok::<Seq<char>, Seq<char>>(region)
            &&& grabbing(region).args.contains(region)
        },
{
    text::law_trimming_twice_is_trimming_once(geometry);
    if let Ok(region) = region_from(geometry) {
        assert(grabbing(region).args[3] == region);
    }
}

/// White space around a geometry makes no difference.
pub proof fn law_white_space_around_a_geometry_is_ignored(geometry: Seq<char>)
    ensures
        region_from(text::trimmed(geometry)) == region_from(geometry),
{
    text::law_trimming_twice_is_trimming_once(geometry);
}

/// Whether there is no white space in a text.
pub open spec fn unspaced(s: Seq<char>) -> bool {
    forall|j: int| 0 <= j < s.len() ==> !text::space(#[trigger] s[j])
}

/// A text splits at the first of a character that does not stand before it.
proof fn lemma_splits_at(first: Seq<char>, c: char, second: Seq<char>)
    requires
        !first.contains(c),
    ensures
        text::once_split(first + seq![c] + second, c) == Some((first, second)),
{
    let whole = first + seq![c] + second;
    let n = first.len() as int;
    assert forall|j: int| 0 <= j < n implies whole[j] != c by {
        assert(whole[j] == first[j]);
        assert(first.contains(first[j]));
    }
    text::lemma_first_index_is(whole, c, n);
    assert(whole.take(n) =~= first);
    assert(whole.skip(n + 1) =~= second);
}

/// Four texts, written as a place and a size, are a region exactly when all four are
/// numbers; otherwise the complaint names the first that is none, and says what is
/// wrong with it.
pub proof fn law_a_region_is_four_numbers(
    x: Seq<char>,
    y: Seq<char>,
    w: Seq<char>,
    h: Seq<char>,
)
    requires
        unspaced(x),
        unspaced(y),
        unspaced(w),
        unspaced(h),
        !x.contains(','),
        !w.contains('x'),
    ensures
        ({
            let whole = x + seq![','] + y + seq![' '] + w + seq!['x'] + h;
            let complaint = " is not a number in '"@ + whole + "'"@ + ": "@;
            &&& text::is_i32(x) && text::is_i32(y) && text::is_i32(w) && text::is_i32(h)
                <==> region_from(whole) == Ok::<Seq<char>, Seq<char>>(whole)
            &&& !text::is_i32(x) ==> region_from(whole) == Err::<Seq<char>, Seq<char>>(
                seq!['x'] + complaint + text::i32_complaint(x),
            )
            &&& text::is_i32(x) && !text::is_i32(y) ==> region_from(whole) == Err::<
                Seq<char>,
                Seq<char>,
            >(seq!['y'] + complaint + text::i32_complaint(y))
            &&& text::is_i32(x) && text::is_i32(y) && !text::is_i32(w) ==> region_from(whole)
                == Err::<Seq<char>, Seq<char>>("width"@ + complaint + text::i32_complaint(w))
            &&& text::is_i32(x) && text::is_i32(y) && text::is_i32(w) && !text::is_i32(h)
                ==> region_from(whole) == Err::<Seq<char>, Seq<char>>(
                "height"@ + complaint + text::i32_complaint(h),
            )
        }),
{
    let origin = x + seq![','] + y;
    let size = w + seq!['x'] + h;
    let whole = x + seq![','] + y + seq![' '] + w + seq!['x'] + h;
    let complaint = " is not a number in '"@ + whole + "'"@ + ": "@;
    assert(whole =~= origin + seq![' '] + size);
    assert forall|j: int| 0 <= j < origin.len() implies #[trigger] origin[j] != ' ' by {
        if j < x.len() {
            assert(!text::space(x[j]));
        } else if j > x.len() {
            assert(!text::space(y[j - x.len() - 1]));
        }
    }
    lemma_splits_at(origin, ' ', size);
    lemma_splits_at(x, ',', y);
    lemma_splits_at(w, 'x', h);
    assert(whole[0] == if x.len() > 0 { x[0] } else { ',' });
    assert(whole.last() == if h.len() > 0 { h.last() } else { 'x' });
    if h.len() > 0 {
        assert(!text::space(h[h.len() - 1]));
    }
    assert(!text::space(whole[0]) && !text::space(whole.last()));
    assert(text::trimmed_start(whole) == whole);
    assert(text::trimmed_end(whole) == whole);
    reveal_strlit("x");
    reveal_strlit("y");
    assert("x"@ =~= seq!['x']);
    assert("y"@ =~= seq!['y']);
    if let Some((label, value)) = odd_number(x, y, w, h) {
        assert(command::because(
            label + " is not a number in '"@ + whole + "'"@,
            text::i32_complaint(value),
        ) =~= label + complaint + text::i32_complaint(value));
    }
}

/// A region is what is left of the geometry without white space around it, and has
/// a comma, then a space, then an `x` in it.
pub proof fn law_a_region_keeps_the_geometry(geometry: Seq<char>)
    ensures
        region_from(geometry) matches Ok(region) ==> {
            &&& region == text::trimmed(geometry)
            &&& region.contains(',') && region.contains(' ') && region.contains('x')
        },
        !text::trimmed(geometry).contains(' ') ==> region_from(geometry) is Err,
        !geometry.contains(',') ==> region_from(geometry) is Err,
        !geometry.contains('x') ==> region_from(geometry) is Err,
{
    let whole = text::trimmed(geometry);
    text::lemma_trimmed_is_bare(geometry);
    text::law_the_first_separator_parts_a_text(whole, ' ');
    if let Some((origin, size)) = text::once_split(whole, ' ') {
        text::law_the_first_separator_parts_a_text(origin, ',');
        text::law_the_first_separator_parts_a_text(size, 'x');
        let n = origin.len() as int;
        assert(whole[n] == ' ');
        if let Some((a, b)) = text::once_split(origin, ',') {
            assert(whole[a.len() as int] == ',');
            assert(whole.contains(','));
            if let Some((c, d)) = text::once_split(size, 'x') {
                assert(whole[n + 1 + c.len()] == 'x');
                assert(whole.contains('x'));
            }
        }
    }
}

/// The region or the output is what the grabbing program is told to grab, behind the
/// option for it; the image comes on its standard output, as a PPM to be read and as
/// a PNG to be kept.
pub proof fn law_the_grab_is_of_what_was_chosen(what: Seq<char>)
    ensures
        grabbing(what).program == "grim"@,
        grabbing(what).args == seq!["-t"@, "ppm"@, "-g"@, what, "-"@],
        grabbing_png(what).program == "grim"@,
        grabbing_png(what).args == seq!["-t"@, "png"@, "-g"@, what, "-"@],
        grabbing_output(what).program == "grim"@,
        grabbing_output(what).args == seq!["-t"@, "png"@, "-o"@, what, "-"@],
{
}

/// What the selecting program printed is the choice, without the white space around
/// it; a drag that was called off, or that printed only white space, is no choice
/// and no failure.
pub proof fn law_the_choice_is_what_was_printed(exit: Exit)
    requires
        vstd::utf8::valid_utf8(exit.stdout@),
    ensures
        ({
            let printed = vstd::utf8::decode_utf8(exit.stdout@);
            let blank = forall|i: int|
                0 <= i < printed.len() ==> text::space(#[trigger] printed[i]);
            let result = choice(Ok(exit));
            &&& exit.success && !blank ==> result == Ok::<Option<Seq<char>>, Seq<char>>(
                Some(text::trimmed(printed)),
            )
            &&& !exit.success || blank ==> result == Ok::<Option<Seq<char>>, Seq<char>>(None)
        }),
{
    let printed = vstd::utf8::decode_utf8(exit.stdout@);
    text::law_trimming_drops_only_white_space(printed);
    let (from, to) = choose|from: int, to: int|
        {
            &&& 0 <= from <= to <= printed.len()
            &&& text::trimmed(printed) == #[trigger] printed.subrange(from, to)
            &&& forall|j: int|
                0 <= j < from || to <= j < printed.len() ==> text::space(#[trigger] printed[j])
            &&& from < to ==> !text::space(printed[from]) && !text::space(printed[to - 1])
        };
    assert(text::trimmed(printed).len() == to - from);
}

/// The image is the very bytes that were printed, when there are any; a failed grab
/// says why, at the end.
pub proof fn law_the_image_is_what_was_printed(exit: Exit, cause: String)
    ensures
        exit.success && exit.stdout@.len() > 0 <==> grab_outcome(Ok(exit)) is Ok,
        grab_outcome(Ok(exit)) matches Ok(image) ==> image == exit.stdout@,
        !exit.success ==> (grab_outcome(Ok(exit)) matches Err(message) && text::ends_with(
            message,
            command::printed(exit.stderr@),
        )),
        grab_outcome(Err(cause)) matches Err(message) && text::ends_with(message, cause@),
        choice(Err(cause)) matches Err(message) && text::ends_with(message, cause@),
{
    text::lemma_ends_with("grim failed"@ + ": "@, command::printed(exit.stderr@));
    text::lemma_ends_with("could not run `grim` - is it installed?"@ + ": "@, cause@);
    text::lemma_ends_with("could not run `slurp` - is it installed?"@ + ": "@, cause@);
}

/// The region that was dragged is the one grabbed, and what was grabbed is the
/// result; the freeze stays as it was until then.
pub proof fn law_the_dragged_region_is_grabbed(
    held: bool,
    outcome: Result<Exit, String>,
    region: Seq<char>,
)
    ensures
        choice(outcome) == Ok::<Option<Seq<char>>, Seq<char>>(Some(region)) ==> {
            &&& move_after_drag(held, outcome) matches InteractiveView::Grab {
                held: still,
                command,
            } && still == held && command.program == "grim"@ && command.args[2] == "-g"@
                && command.args[3] == region
        },
        choice(outcome) == Ok::<Option<Seq<char>>, Seq<char>>(None) ==> (move_after_drag(
            held,
            outcome,
        ) == if held {
            InteractiveView::Release(Ok(None))
        } else {
            InteractiveView::Done(Ok(None))
        }),
        outcome matches Ok(exit) ==> (exit.success && exit.stdout@.len() > 0 ==> (move_after_grab(
            held,
            outcome,
        ) == if held {
            InteractiveView::Release(Ok(Some(exit.stdout@)))
        } else {
            InteractiveView::Done(Ok(Some(exit.stdout@)))
        })),
        first_move(true) matches InteractiveView::Freeze(command) && command.program
            == "hyprpicker"@,
        first_move(false) matches InteractiveView::Select { held: false, command }
            && command.program == "slurp"@ && command.args.len() == 0,
{
}

/// What the selecting program printed and that is no text is a failure, which says
/// at the end what is wrong with it.
pub proof fn law_a_choice_that_is_no_text_is_a_failure(exit: Exit)
    requires
        exit.success,
        !vstd::utf8::valid_utf8(exit.stdout@),
    ensures
        choice(Ok(exit)) matches Err(message) && text::ends_with(
            message,
            command::utf8_complaint(exit.stdout@),
        ),
{
    text::lemma_ends_with(
        "slurp returned non-utf8"@ + ": "@,
        command::utf8_complaint(exit.stdout@),
    );
}

} // verus!
