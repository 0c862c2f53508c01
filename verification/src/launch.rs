//! What is decided when the program starts.

use vstd::prelude::*;

use crate::text::{chars_of, contains, ends_with, finishes_with, has_text, same, texts};
use crate::ui_state::{event_views, EventView, VoiceUiEvent};

verus! {

/// The parts of a path lead through an application bundle.
pub open spec fn in_bundle(parts: Seq<Seq<char>>) -> bool {
    exists|i: int| #[trigger] bundle_at(parts, i)
}

pub open spec fn bundle_at(parts: Seq<Seq<char>>, i: int) -> bool {
    &&& 0 <= i
    &&& i + 2 < parts.len()
    &&& ends_with(parts[i], ".app"@)
    &&& parts[i + 1] == "Contents"@
    &&& parts[i + 2] == "MacOS"@
}

/// Whether the parts of a path lead through an application bundle.
pub fn path_looks_packaged_app(parts: &Vec<String>) -> (found: bool)
    ensures
        found == in_bundle(texts(parts@)),
{
    let ghost all = texts(parts@);
    let mut i: usize = 0;
    while i < parts.len() && parts.len() - i > 2
        invariant
            i <= parts@.len(),
            all == texts(parts@),
            forall|j: int| 0 <= j < i ==> !#[trigger] bundle_at(all, j),
        decreases parts@.len() - i,
    {
        if finishes_with(parts[i].as_str(), ".app") && same(parts[i + 1].as_str(), "Contents")
            && same(parts[i + 2].as_str(), "MacOS") {
            assert(bundle_at(all, i as int));
            return true;
        }
        assert(!bundle_at(all, i as int));
        i = i + 1;
    }
    false
}

/// Whether the demonstration runs: only where it was asked for, and never in a
/// packaged application. `parts` is the path of the executable, if it is known.
pub fn demo_should_run(requested: bool, parts: &Option<Vec<String>>) -> (runs: bool)
    ensures
        runs == (requested && match *parts {
            Some(parts) => !in_bundle(texts(parts@)),
            None => true,
        }),
{
    requested && match parts {
        Some(parts) => !path_looks_packaged_app(parts),
        None => true,
    }
}

/// Whether the executable was started out of an application bundle.
pub fn launched_from_app_bundle(path: &Option<String>) -> (found: bool)
    ensures
        found == match *path {
            Some(path) => has_text(path@, ".app/Contents/MacOS/"@),
            None => false,
        },
{
    match path {
        Some(path) => contains(path.as_str(), ".app/Contents/MacOS/"),
        None => false,
    }
}

/// A character that can stand in the name of a socket.
pub open spec fn socket_char(c: char) -> char {
    if ('0' <= c && c <= '9') || ('a' <= c && c <= 'z') || ('A' <= c && c <= 'Z') || c == '-' || c
        == '_' {
        c
    } else {
        '_'
    }
}

fn socket_char_of(c: char) -> (result: char)
    ensures
        result == socket_char(c),
{
    if ('0' <= c && c <= '9') || ('a' <= c && c <= 'z') || ('A' <= c && c <= 'Z') || c == '-' || c
        == '_' {
        c
    } else {
        '_'
    }
}

/// The start of a profile's name, with what can stand in the name of a socket.
pub open spec fn socket_prefix(profile: Seq<char>) -> Seq<char> {
    let count = if profile.len() < 24 {
        profile.len()
    } else {
        24
    };
    Seq::new(count, |i: int| socket_char(profile[i]))
}

fn socket_prefix_of(profile: &str) -> (prefix: String)
    ensures
        prefix@ == socket_prefix(profile@),
{
    let chars = chars_of(profile);
    let count: usize = if chars.len() < 24 {
        chars.len()
    } else {
        24
    };
    let mut prefix = String::new();
    let mut i: usize = 0;
    while i < count
        invariant
            i <= count <= chars@.len(),
            chars@ == profile@,
            prefix@.len() == i,
            forall|j: int| 0 <= j < i ==> #[trigger] prefix@[j] == socket_char(profile@[j]),
        decreases count - i,
    {
        prefix.push(socket_char_of(chars[i]));
        i = i + 1;
    }
    assert(prefix@ =~= socket_prefix(profile@));
    prefix
}

/// The hexadecimal digit of a number.
pub open spec fn hex_char(d: nat) -> char {
    if d < 10 {
        ('0' as u32 + d) as char
    } else {
        ('a' as u32 + d - 10) as char
    }
}

/// The last `width` hexadecimal digits of a number.
pub open spec fn hex_digits(n: nat, width: nat) -> Seq<char>
    decreases width,
{
    if width == 0 {
        Seq::empty()
    } else {
        hex_digits(n / 16, (width - 1) as nat).push(hex_char(n % 16))
    }
}

fn hex_char_of(d: u64) -> (c: char)
    requires
        d < 16,
    ensures
        c == hex_char(d as nat),
{
    if d < 10 {
        (48 + d as u8) as char
    } else {
        (97 + (d as u8 - 10)) as char
    }
}

fn hex_text(n: u64, width: u8) -> (text: String)
    ensures
        text@ == hex_digits(n as nat, width as nat),
    decreases width,
{
    if width == 0 {
        return String::new();
    }
    let mut text = hex_text(n / 16, width - 1);
    text.push(hex_char_of(n % 16));
    text
}

/// The socket by which a second start of the program finds the first. `hash` is
/// a hash of the profile's name.
pub open spec fn instance_socket(profile: Seq<char>, hash: u64) -> Seq<char> {
    "/tmp/cua-voice-"@ + socket_prefix(profile) + "-"@ + hex_digits(hash as nat, 16) + ".sock"@
}

/// The socket by which a second start of the program finds the first.
pub fn single_instance_socket_path(profile: &str, hash: u64) -> (path: String)
    ensures
        path@ == instance_socket(profile@, hash),
{
    let mut path = "/tmp/cua-voice-".to_owned();
    path.append(socket_prefix_of(profile).as_str());
    path.append("-");
    path.append(hex_text(hash, 16).as_str());
    path.append(".sock");
    path
}

/// What becomes of a start of the program.
#[derive(Clone, Copy, Debug, PartialEq, Eq, Structural)]
pub enum InstanceClaim {
    /// The socket was free: this is the only instance.
    Claimed,
    /// Another instance answers: this one ends.
    Yield,
    /// The socket was left behind: it is removed and taken.
    Replace,
    /// The socket cannot be had.
    Fail,
}

/// What becomes of a start of the program: `bound` if its socket could be taken,
/// `in_use` if it could not because it is taken already, `responsive` if it is
/// answered there.
pub fn single_instance_claim(bound: bool, in_use: bool, responsive: bool) -> (claim: InstanceClaim)
    ensures
        (claim is Claimed) == bound,
        (claim is Yield) == (!bound && in_use && responsive),
        (claim is Replace) == (!bound && in_use && !responsive),
        (claim is Fail) == (!bound && !in_use),
{
    if bound {
        InstanceClaim::Claimed
    } else if !in_use {
        InstanceClaim::Fail
    } else if responsive {
        InstanceClaim::Yield
    } else {
        InstanceClaim::Replace
    }
}

/// Whatever a profile is called, the name of its socket leads to no other
/// directory, and it is short enough for a socket.
pub proof fn lemma_socket_prefix_is_plain(profile: Seq<char>)
    ensures
        socket_prefix(profile).len() <= 24,
        !socket_prefix(profile).contains('/'),
        !socket_prefix(profile).contains('.'),
{
    let prefix = socket_prefix(profile);
    assert forall|i: int| 0 <= i < prefix.len() implies prefix[i] != '/' && prefix[i] != '.' by {
        assert(prefix[i] == socket_char(profile[i]));
    }
}

/// What is done about a permission.
#[derive(Clone, Copy, Debug, PartialEq, Eq, Structural)]
pub enum PermissionPrompt {
    /// It was asked for before: only look at what holds now.
    Report,
    /// It was asked for before there was a common marker: look, and write the
    /// marker.
    Adopt,
    /// Ask for it, and write the marker.
    Request,
}

/// What is done about a permission: it is asked for once.
pub fn request_desktop_permission_once(marker: bool, legacy_marker: bool) -> (prompt: PermissionPrompt)
    ensures
        prompt == prompt_for(marker, legacy_marker),
{
    if marker {
        PermissionPrompt::Report
    } else if legacy_marker {
        PermissionPrompt::Adopt
    } else {
        PermissionPrompt::Request
    }
}

pub open spec fn prompt_for(marker: bool, legacy_marker: bool) -> PermissionPrompt {
    if marker {
        PermissionPrompt::Report
    } else if legacy_marker {
        PermissionPrompt::Adopt
    } else {
        PermissionPrompt::Request
    }
}

/// The marker is there after whatever was done.
pub open spec fn marker_after(marker: bool, prompt: PermissionPrompt) -> bool {
    marker || prompt != PermissionPrompt::Report
}

/// A permission is asked for at most once.
pub proof fn lemma_permission_is_asked_for_once(marker: bool, legacy: bool, legacy_later: bool)
    ensures
        prompt_for(marker_after(marker, prompt_for(marker, legacy)), legacy_later)
            == PermissionPrompt::Report,
{
}

/// The events of the demonstration, in order.
pub open spec fn demo_events() -> Seq<EventView> {
    seq![
        EventView::Armed,
        EventView::Listening { ms: 1_200 },
        EventView::Accepted,
        EventView::Transcribing,
        EventView::Transcript("Click 640 360"@),
        EventView::Planning { tool: "Command parser"@ },
        EventView::Dispatching("click 640 360"@),
        EventView::AgentStep {
            label: "checking target state"@,
            source: Some("planner"@),
            task: Some("Click target"@),
            tool: Some("vision"@),
            step_index: Some(2),
            step_total: Some(4),
            ttl_ms: Some(5_000),
        },
        EventView::Reply("Clicked the center target."@),
    ]
}

/// The events of the demonstration, in order.
pub fn demo_sequence() -> (events: Vec<VoiceUiEvent>)
    ensures
        event_views(events@) == demo_events(),
{
    let events = vec![
        VoiceUiEvent::Armed,
        VoiceUiEvent::Listening { ms: 1_200 },
        VoiceUiEvent::Accepted,
        VoiceUiEvent::Transcribing,
        VoiceUiEvent::Transcript("Click 640 360".to_owned()),
        VoiceUiEvent::Planning { tool: "Command parser".to_owned() },
        VoiceUiEvent::Dispatching("click 640 360".to_owned()),
        VoiceUiEvent::AgentStep {
            label: "checking target state".to_owned(),
            source: Some("planner".to_owned()),
            task: Some("Click target".to_owned()),
            tool: Some("vision".to_owned()),
            step_index: Some(2),
            step_total: Some(4),
            ttl_ms: Some(5_000),
        },
        VoiceUiEvent::Reply("Clicked the center target.".to_owned()),
    ];
    assert(event_views(events@) =~= demo_events());
    events
}

/// A program is packaged exactly if its path leads through the folders of a
/// bundle, wherever they stand in it.
pub proof fn lemma_bundle_is_found(before: Seq<Seq<char>>, app: Seq<char>, after: Seq<Seq<char>>)
    ensures
        ends_with(app, ".app"@) ==> in_bundle(
            before + seq![app, "Contents"@, "MacOS"@] + after,
        ),
        !before.contains("MacOS"@) ==> !in_bundle(before),
        !before.contains("Contents"@) ==> !in_bundle(before),
{
    let parts = before + seq![app, "Contents"@, "MacOS"@] + after;
    let i = before.len() as int;
    assert(parts[i] == app && parts[i + 1] == "Contents"@ && parts[i + 2] == "MacOS"@);
    if ends_with(app, ".app"@) {
        assert(bundle_at(parts, i));
    }
    if in_bundle(before) {
        let k = choose|k: int| #[trigger] bundle_at(before, k);
        assert(before[k + 1] == "Contents"@ && before[k + 2] == "MacOS"@);
    }
}

/// The socket of an instance keeps the letters, digits, hyphens and underscores of
/// the first characters of the profile, and has an underscore for each other one.
pub proof fn lemma_socket_keeps_the_name(profile: Seq<char>, i: int)
    requires
        0 <= i < profile.len(),
    ensures
        profile.len() <= 24 ==> socket_prefix(profile).len() == profile.len(),
        profile.len() > 24 ==> socket_prefix(profile).len() == 24,
        i < 24 && ('0' <= profile[i] <= '9' || 'a' <= profile[i] <= 'z' || 'A' <= profile[i] <= 'Z'
            || profile[i] == '-' || profile[i] == '_') ==> socket_prefix(profile)[i] == profile[i],
        i < 24 && !('0' <= profile[i] <= '9' || 'a' <= profile[i] <= 'z' || 'A' <= profile[i] <= 'Z'
            || profile[i] == '-' || profile[i] == '_') ==> socket_prefix(profile)[i] == '_',
{
}

/// Hexadecimal digits have their width, and read as the number that they write.
pub proof fn lemma_hex_digits_read_back(n: nat, width: nat)
    ensures
        hex_digits(n, width).len() == width,
        width > 0 ==> hex_digits(n, width).drop_last() == hex_digits(n / 16, (width - 1) as nat),
        width > 0 ==> crate::island::hex_digit(hex_digits(n, width).last()) == Some(n % 16),
    decreases width,
{
    if width > 0 {
        lemma_hex_digits_read_back(n / 16, (width - 1) as nat);
        assert(hex_digits(n, width).drop_last() =~= hex_digits(n / 16, (width - 1) as nat));
        assert(n % 16 < 16);
    }
}

/// Two profiles whose hashes differ have different sockets.
pub proof fn lemma_sockets_differ(profile: Seq<char>, a: u64, b: u64)
    requires
        instance_socket(profile, a) == instance_socket(profile, b),
    ensures
        a == b,
{
    let head = "/tmp/cua-voice-"@ + socket_prefix(profile) + "-"@;
    let x = hex_digits(a as nat, 16);
    let y = hex_digits(b as nat, 16);
    lemma_hex_digits_read_back(a as nat, 16);
    lemma_hex_digits_read_back(b as nat, 16);
    let from = head.len() as int;
    assert(instance_socket(profile, a).subrange(from, from + 16) =~= x);
    assert(instance_socket(profile, b).subrange(from, from + 16) =~= y);
    lemma_same_hex_digits(a as nat, b as nat, 16);
}

spec fn sixteen_to(width: nat) -> nat
    decreases width,
{
    if width == 0 {
        1
    } else {
        16 * sixteen_to((width - 1) as nat)
    }
}

proof fn lemma_same_hex_digits(a: nat, b: nat, width: nat)
    requires
        hex_digits(a, width) == hex_digits(b, width),
    ensures
        a < sixteen_to(width) && b < sixteen_to(width) ==> a == b,
        sixteen_to(16) == 0x1_0000_0000_0000_0000,
    decreases width,
{
    reveal_with_fuel(sixteen_to, 17);
    if width > 0 {
        lemma_hex_digits_read_back(a, width);
        lemma_hex_digits_read_back(b, width);
        lemma_same_hex_digits(a / 16, b / 16, (width - 1) as nat);
    }
}

/// A permission that was not asked for is asked for; one that was asked for under
/// an older mark is taken over.
pub proof fn lemma_permission_is_asked_for(legacy: bool)
    ensures
        prompt_for(false, false) == PermissionPrompt::Request,
        prompt_for(false, true) == PermissionPrompt::Adopt,
        prompt_for(true, legacy) == PermissionPrompt::Report,
{
}

/// The demonstration tells a whole turn: it is listened to, accepted, transcribed,
/// planned and carried out, and answered at the end.
pub proof fn lemma_demonstration_tells_a_turn()
    ensures
        demo_events().len() == 9,
        demo_events()[0] == EventView::Armed,
        demo_events()[1] == (EventView::Listening { ms: 1_200 }),
        demo_events()[2] == EventView::Accepted,
        demo_events()[3] == EventView::Transcribing,
        demo_events()[4] == EventView::Transcript("Click 640 360"@),
        demo_events()[5] == (EventView::Planning { tool: "Command parser"@ }),
        demo_events()[6] == EventView::Dispatching("click 640 360"@),
        demo_events()[7] matches EventView::AgentStep { label, source, task, tool, step_index, step_total, ttl_ms }
            && label == "checking target state"@ && source == Some("planner"@) && task == Some(
            "Click target"@,
        ) && tool == Some("vision"@) && step_index == Some(2u16) && step_total == Some(4u16)
            && ttl_ms == Some(5_000u64),
        demo_events()[8] == EventView::Reply("Clicked the center target."@),
{
}

} // verus!
