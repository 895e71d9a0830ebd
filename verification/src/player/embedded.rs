//! Embedded playback: mpv with `--vo=kitty` confined to a reserved cell
//! rectangle, controlled over its JSON-IPC socket. mpv decodes, syncs A/V,
//! renders subtitles and Kitty frames; we position it, drive controls, and
//! observe `time-pos`/`duration`/`pause`.

use crate::app::FrameRate;
use crate::json;
use crate::json::{Json, JsonModel};
use crate::number;
use crate::player::mpv;
use crate::seconds::Seconds;
use crate::text;
use vstd::prelude::*;

verus! {

/// IPC socket path of the embedded player of the process `pid`.
pub fn embedded_socket_path(pid: u32) -> (r: String)
    ensures
        r@ == "/tmp/anime-tui-embed-"@ + number::digits(pid as nat) + ".sock"@,
{
    let mut s = "/tmp/anime-tui-embed-".to_string();
    s.append(number::decimal(pid as u64).as_str());
    s.append(".sock");
    s
}

/// What the player is told to do.
#[derive(Debug, Clone, Copy, PartialEq, Eq, Structural)]
pub enum Control {
    TogglePause,
    /// Seek by a number of seconds.
    SeekRelative,
    /// Seek to a position in seconds.
    SeekAbsolute,
    /// Change the volume by a number of percent.
    AddVolume,
    ToggleMute,
    CycleSubtitle,
    CycleAudio,
    Quit,
}

/// The words of mpv's command. The number, where the command takes one, is `n`.
pub open spec fn control_words(c: Control, n: JsonModel) -> Seq<JsonModel> {
    match c {
        Control::TogglePause => seq![JsonModel::Text("cycle"@), JsonModel::Text("pause"@)],
        Control::SeekRelative => seq![
            JsonModel::Text("seek"@),
            n,
            JsonModel::Text("relative"@),
        ],
        Control::SeekAbsolute => seq![
            JsonModel::Text("seek"@),
            n,
            JsonModel::Text("absolute"@),
        ],
        Control::AddVolume => seq![JsonModel::Text("add"@), JsonModel::Text("volume"@), n],
        Control::ToggleMute => seq![JsonModel::Text("cycle"@), JsonModel::Text("mute"@)],
        Control::CycleSubtitle => seq![JsonModel::Text("cycle"@), JsonModel::Text("sub"@)],
        Control::CycleAudio => seq![JsonModel::Text("cycle"@), JsonModel::Text("aid"@)],
        Control::Quit => seq![JsonModel::Text("quit"@)],
    }
}

fn word(s: &str) -> (r: Json)
    ensures
        r@ == JsonModel::Text(s@),
{
    Json::Text(s.to_string())
}

/// The command line that tells mpv what to do. The number, where the command takes one,
/// is `n`.
pub fn control_line(c: Control, n: Json) -> (r: String)
    requires
        json::ordered(n@),
    ensures
        r@ == json::json_text(mpv::command_json(control_words(c, n@))) + "\n"@,
{
    let ghost number = n@;
    let mut parts: Vec<Json> = Vec::new();
    match c {
        Control::TogglePause => {
            parts.push(word("cycle"));
            parts.push(word("pause"));
        },
        Control::SeekRelative => {
            parts.push(word("seek"));
            parts.push(n);
            parts.push(word("relative"));
        },
        Control::SeekAbsolute => {
            parts.push(word("seek"));
            parts.push(n);
            parts.push(word("absolute"));
        },
        Control::AddVolume => {
            parts.push(word("add"));
            parts.push(word("volume"));
            parts.push(n);
        },
        Control::ToggleMute => {
            parts.push(word("cycle"));
            parts.push(word("mute"));
        },
        Control::CycleSubtitle => {
            parts.push(word("cycle"));
            parts.push(word("sub"));
        },
        Control::CycleAudio => {
            parts.push(word("cycle"));
            parts.push(word("aid"));
        },
        Control::Quit => {
            parts.push(word("quit"));
        },
    }
    assert(json::models(parts@) =~= control_words(c, number));
    match mpv::ipc_command(parts.as_slice()) {
        Ok(line) => line,
        Err(_) => String::new(),
    }
}

/// The properties that are observed, each with the number that it is asked for under.
pub open spec fn observed(i: int) -> Seq<char> {
    if i == 0 {
        "time-pos"@
    } else if i == 1 {
        "duration"@
    } else {
        "pause"@
    }
}

/// The words that ask mpv to report a property.
pub open spec fn observe_words(i: int) -> Seq<JsonModel> {
    seq![
        JsonModel::Text("observe_property"@),
        JsonModel::Number(json::unsigned_parts((i + 1) as u64)),
        JsonModel::Text(observed(i)),
    ]
}

/// The command lines that ask mpv to report the position, the duration and the pause.
pub fn observe_lines() -> (r: Vec<String>)
    ensures
        text::texts(r@) == Seq::new(
            3,
            |i: int| json::json_text(mpv::command_json(observe_words(i))) + "\n"@,
        ),
{
    let ghost all = Seq::new(
        3,
        |i: int| json::json_text(mpv::command_json(observe_words(i))) + "\n"@,
    );
    let mut out: Vec<String> = Vec::new();
    let mut i: u64 = 0;
    while i < 3
        invariant
            i <= 3,
            all == Seq::new(
                3,
                |i: int| json::json_text(mpv::command_json(observe_words(i))) + "\n"@,
            ),
            text::texts(out@) == all.take(i as int),
        decreases 3 - i,
    {
        let name = if i == 0 {
            "time-pos"
        } else if i == 1 {
            "duration"
        } else {
            "pause"
        };
        let mut parts: Vec<Json> = Vec::new();
        parts.push(word("observe_property"));
        parts.push(Json::unsigned(i + 1));
        parts.push(word(name));
        assert(json::models(parts@) =~= observe_words(i as int));
        if let Ok(line) = mpv::ipc_command(parts.as_slice()) {
            text::put(&mut out, line);
        }
        assert(all.take(i + 1) =~= all.take(i as int).push(all[i as int]));
        i = i + 1;
    }
    assert(all.take(3) =~= all);
    out
}

/// One throttled playback-position sample forwarded to the event loop (~1/sec).
#[derive(Debug, Clone, Copy, PartialEq, Eq, Structural)]
pub struct ProgressUpdate {
    pub position: Seconds,
    pub duration: Seconds,
    pub paused: bool,
    /// Rolling fps measured from mpv property-change events (~30-frame window).
    pub fps: Option<FrameRate>,
}

/// What the observer knows of the running player.
pub struct Observer {
    pub duration: Seconds,
    pub paused: bool,
    /// The whole second that was last reported.
    pub last_sec: i64,
    /// When the last frames came, in nanoseconds.
    pub frame_times: Vec<u64>,
    pub fps: Option<FrameRate>,
}

/// What an [`Observer`] holds.
#[verifier::ext_equal]
pub ghost struct ObserverModel {
    pub duration: Seconds,
    pub paused: bool,
    pub last_sec: i64,
    pub frame_times: Seq<u64>,
    pub fps: Option<FrameRate>,
}

impl View for Observer {
    type V = ObserverModel;

    open spec fn view(&self) -> ObserverModel {
        ObserverModel {
            duration: self.duration,
            paused: self.paused,
            last_sec: self.last_sec,
            frame_times: self.frame_times@,
            fps: self.fps,
        }
    }
}

/// How many frames the rate is measured over at most.
pub const WINDOW: usize = 30;

/// The shortest time that a rate is measured over, in nanoseconds.
pub const MIN_SPAN: u64 = 100_000_000;

/// The times of the last frames with one more.
pub open spec fn frames_with(times: Seq<u64>, now: u64) -> Seq<u64> {
    let all = times.push(now);
    if all.len() > WINDOW {
        all.subrange(1, all.len() as int)
    } else {
        all
    }
}

/// The rate at which frames came: the one measured before while too little time has
/// passed.
pub open spec fn rate_of(times: Seq<u64>, before: Option<FrameRate>) -> Option<FrameRate> {
    if times.len() >= 2 && times.last() > times[0] && times.last() - times[0] > MIN_SPAN {
        Some(
            FrameRate {
                frames: (times.len() - 1) as u64,
                nanos: (times.last() - times[0]) as u64,
            },
        )
    } else {
        before
    }
}

impl ObserverModel {
    /// What a new position does: it is reported when it lies in another second than the
    /// one last reported.
    pub open spec fn moved_to(self, pos: Seconds, now: u64) -> (
        ObserverModel,
        Option<ProgressUpdate>,
    ) {
        let times = frames_with(self.frame_times, now);
        let fps = rate_of(times, self.fps);
        let next = ObserverModel {
            frame_times: times,
            fps,
            last_sec: pos.whole_signed(),
            ..self
        };
        if pos.whole_signed() == self.last_sec {
            (next, None)
        } else {
            (
                next,
                Some(
                    ProgressUpdate {
                        position: pos,
                        duration: self.duration,
                        paused: self.paused,
                        fps,
                    },
                ),
            )
        }
    }

    /// What an event of mpv does. Only changes of the observed properties count, and
    /// only with a value of the right sort.
    pub open spec fn told(self, v: JsonModel, now: u64) -> (
        ObserverModel,
        Option<ProgressUpdate>,
    ) {
        let data = json::at(v, "data"@);
        if json::as_text(json::at(v, "event"@)) != Some("property-change"@) {
            (self, None)
        } else {
            match json::as_text(json::at(v, "name"@)) {
                Some(name) => if name == "duration"@ {
                    match json::as_double(data) {
                        Some(bits) => (
                            ObserverModel { duration: Seconds { bits }, ..self },
                            None,
                        ),
                        None => (self, None),
                    }
                } else if name == "pause"@ {
                    match data {
                        JsonModel::Bool(b) => (ObserverModel { paused: b, ..self }, None),
                        _ => (self, None),
                    }
                } else if name == "time-pos"@ {
                    match json::as_double(data) {
                        Some(bits) => self.moved_to(Seconds { bits }, now),
                        None => (self, None),
                    }
                } else {
                    (self, None)
                },
                None => (self, None),
            }
        }
    }
}

/// A position in the second that was last reported is not reported again, and what is
/// reported is the position that came with the duration and the pause last told.
pub proof fn law_one_sample_per_second(o: ObserverModel, pos: Seconds, now: u64)
    ensures
        ({
            let (next, sent) = o.moved_to(pos, now);
            &&& next.last_sec == pos.whole_signed()
            &&& sent is None <==> pos.whole_signed() == o.last_sec
            &&& sent matches Some(u) ==> u.position == pos && u.duration == o.duration && u.paused
                == o.paused
            &&& next.moved_to(pos, now).1 is None
        }),
{
}

/// What mpv is told: to turn something on or off, to seek by or to a number of seconds,
/// to change the volume by a number, or to quit. Only seeking and the volume take the
/// number, and no two controls say the same.
pub proof fn law_control_words(c: Control, d: Control, n: JsonModel)
    requires
        n is Number,
    ensures
        control_words(c, n) == control_words(d, n) ==> c == d,
        control_words(c, n).contains(n) <==> c == Control::SeekRelative || c
            == Control::SeekAbsolute || c == Control::AddVolume,
        control_words(Control::SeekRelative, n)[0] == control_words(Control::SeekAbsolute, n)[0],
        control_words(Control::SeekRelative, n).last() == JsonModel::Text("relative"@),
        control_words(Control::SeekAbsolute, n).last() == JsonModel::Text("absolute"@),
        control_words(Control::SeekRelative, n)[0] == JsonModel::Text("seek"@),
        control_words(Control::AddVolume, n) == seq![
            JsonModel::Text("add"@),
            JsonModel::Text("volume"@),
            n,
        ],
        control_words(Control::TogglePause, n) == cycling("pause"@),
        control_words(Control::ToggleMute, n) == cycling("mute"@),
        control_words(Control::CycleSubtitle, n) == cycling("sub"@),
        control_words(Control::CycleAudio, n) == cycling("aid"@),
        control_words(Control::Quit, n) == seq![JsonModel::Text("quit"@)],
{
    reveal_strlit("cycle");
    reveal_strlit("pause");
    reveal_strlit("mute");
    reveal_strlit("sub");
    reveal_strlit("aid");
    reveal_strlit("seek");
    reveal_strlit("relative");
    reveal_strlit("absolute");
    reveal_strlit("add");
    reveal_strlit("volume");
    reveal_strlit("quit");
    assert("sub"@[0] == 's' && "aid"@[0] == 'a' && "pause"@[0] == 'p' && "mute"@[0] == 'm');
    assert("relative"@[0] == 'r' && "absolute"@[0] == 'a');
    let w = control_words(c, n);
    let v = control_words(d, n);
    assert(w.len() == 3 && c == Control::AddVolume ==> w[2] == n);
    assert(w.len() == 3 && c != Control::AddVolume ==> w[1] == n);
    if w == v {
        assert(w[0] == v[0]);
        assert(w.len() == v.len());
        if w.len() >= 2 {
            assert(w[1] == v[1]);
        }
        if w.len() == 3 {
            assert(w[2] == v[2]);
            assert("add"@.len() == 3 && "seek"@.len() == 4);
        }
    }
}

/// Turning something over.
pub open spec fn cycling(what: Seq<char>) -> Seq<JsonModel> {
    seq![JsonModel::Text("cycle"@), JsonModel::Text(what)]
}

/// An event that tells the value of a property.
pub open spec fn tells(v: JsonModel, name: Seq<char>, data: JsonModel) -> bool {
    json::holds(v, "event"@, JsonModel::Text("property-change"@)) && json::holds(
        v,
        "name"@,
        JsonModel::Text(name),
    ) && json::holds(v, "data"@, data)
}

/// What is asked for is what is listened to: the first observed property is the position,
/// which may be reported with the length and the pause last told, the second is the
/// length, and the third the pause. Events of other sorts change nothing.
pub proof fn law_observed_is_told(
    o: ObserverModel,
    v: JsonModel,
    data: JsonModel,
    event: Seq<char>,
    now: u64,
)
    ensures
        (data matches JsonModel::Number(p) && p.double matches Some(bits) && tells(v, observed(0), data)) ==> {
            let pos = Seconds { bits: data->Number_0.double->0 };
            let (next, sent) = o.told(v, now);
            &&& next.duration == o.duration && next.paused == o.paused
            &&& next.last_sec == pos.whole_signed()
            &&& sent is Some <==> pos.whole_signed() != o.last_sec
            &&& sent matches Some(u) ==> u.position == pos && u.duration == o.duration && u.paused
                == o.paused
        },
        (data matches JsonModel::Number(p) && p.double matches Some(bits) && tells(v, observed(1), data)) ==> o.told(
            v,
            now,
        ) == (
            ObserverModel { duration: Seconds { bits: data->Number_0.double->0 }, ..o },
            None::<ProgressUpdate>,
        ),
        (data is Bool && tells(v, observed(2), data)) ==> o.told(v, now) == (
            ObserverModel { paused: data->Bool_0, ..o },
            None::<ProgressUpdate>,
        ),
        json::holds(v, "event"@, JsonModel::Text(event)) && event != "property-change"@ ==> o.told(
            v,
            now,
        ) == (o, None::<ProgressUpdate>),
        json::lacks(v, "event"@) || json::lacks(v, "name"@) ==> o.told(v, now) == (
            o,
            None::<ProgressUpdate>,
        ),
{
    reveal_strlit("time-pos");
    reveal_strlit("duration");
    reveal_strlit("pause");
    assert("time-pos"@[0] == 't' && "duration"@[0] == 'd' && "pause"@[0] == 'p');
    json::law_members_are_found(v, "event"@, JsonModel::Text("property-change"@));
    json::law_members_are_found(v, "event"@, JsonModel::Text(event));
    json::law_members_are_found(v, "name"@, JsonModel::Text(observed(0)));
    json::law_members_are_found(v, "name"@, JsonModel::Text(observed(1)));
    json::law_members_are_found(v, "name"@, JsonModel::Text(observed(2)));
    json::law_members_are_found(v, "data"@, data);
}

/// The properties are asked for under the numbers from one on, the position first.
pub proof fn law_observe_words(i: int)
    requires
        0 <= i < 3,
    ensures
        observe_words(i)[0] == JsonModel::Text("observe_property"@),
        observe_words(i)[1] == JsonModel::Number(json::unsigned_parts((i + 1) as u64)),
        observe_words(i)[2] == JsonModel::Text(seq!["time-pos"@, "duration"@, "pause"@][i]),
        observe_words(i).len() == 3,
{
}

/// The rate counts the frames behind the first of the window over the time from the
/// first to the last, once that is a tenth of a second; until then it stays.
pub proof fn law_rate(times: Seq<u64>, before: Option<FrameRate>)
    requires
        times.len() >= 2,
        times.len() <= u64::MAX,
    ensures
        times.last() - times[0] > 100_000_000 ==> (rate_of(times, before) matches Some(r)
            && r.frames + 1 == times.len() && times[0] + r.nanos == times.last()),
        times.last() - times[0] <= 100_000_000 ==> rate_of(times, before) == before,
{
}

/// The window keeps the last thirty frames.
pub proof fn law_window_keeps_the_last(times: Seq<u64>, now: u64)
    requires
        times.len() <= 30,
    ensures
        times.len() < 30 ==> frames_with(times, now) == times.push(now),
        times.len() == 30 ==> frames_with(times, now) == times.drop_first().push(now),
{
    assert(times.len() == 30 ==> frames_with(times, now) =~= times.drop_first().push(now));
}

/// What is reported has the rate of the window that the frame came into.
pub proof fn law_reported_rate(o: ObserverModel, pos: Seconds, now: u64)
    ensures
        ({
            let (next, sent) = o.moved_to(pos, now);
            let fps = rate_of(frames_with(o.frame_times, now), o.fps);
            &&& next.fps == fps
            &&& next.frame_times == frames_with(o.frame_times, now)
            &&& sent matches Some(u) ==> u.fps == fps
        }),
{
}

/// The window of frame times never grows beyond its size.
pub proof fn law_window_is_bounded(times: Seq<u64>, now: u64)
    requires
        times.len() <= WINDOW,
    ensures
        frames_with(times, now).len() <= WINDOW,
        frames_with(times, now).last() == now,
{
}

impl Observer {
    /// An observer that has seen nothing yet.
    pub fn new() -> (r: Observer)
        ensures
            r@ == (ObserverModel {
                duration: Seconds { bits: 0 },
                paused: false,
                last_sec: i64::MIN,
                frame_times: Seq::empty(),
                fps: None,
            }),
    {
        Observer {
            duration: Seconds { bits: 0 },
            paused: false,
            last_sec: i64::MIN,
            frame_times: Vec::new(),
            fps: None,
        }
    }

    /// Takes a new position in.
    fn move_to(&mut self, pos: Seconds, now: u64) -> (r: Option<ProgressUpdate>)
        ensures
            (final(self)@, r) == old(self)@.moved_to(pos, now),
    {
        // Measure fps from the arrival rate of time-pos events (one per frame).
        self.frame_times.push(now);
        if self.frame_times.len() > WINDOW {
            let ghost all = self.frame_times@;
            let _ = self.frame_times.remove(0);
            assert(self.frame_times@ =~= all.subrange(1, all.len() as int));
        }
        let n: usize = self.frame_times.len();
        if n >= 2 {
            let first: u64 = self.frame_times[0];
            let last: u64 = self.frame_times[n - 1];
            if last > first && last - first > MIN_SPAN {
                self.fps = Some(FrameRate { frames: (n - 1) as u64, nanos: last - first });
            }
        }
        let sec: i64 = pos.signed_seconds();
        if sec == self.last_sec {
            return None;
        }
        self.last_sec = sec;
        Some(
            ProgressUpdate {
                position: pos,
                duration: self.duration,
                paused: self.paused,
                fps: self.fps,
            },
        )
    }

    /// Takes an event of mpv in that came at the time `now`, in nanoseconds, and returns
    /// the sample to forward: one per whole second.
    pub fn on_event(&mut self, v: &Json, now: u64) -> (r: Option<ProgressUpdate>)
        ensures
            (final(self)@, r) == old(self)@.told(v@, now),
    {
        let change = match v.str_at("event") {
            Some(e) => text::str_same(e, "property-change"),
            None => false,
        };
        if !change {
            return None;
        }
        let name = match v.str_at("name") {
            Some(name) => name,
            None => return None,
        };
        let data = match v.get("data") {
            Some(data) => data,
            None => return None,
        };
        if text::str_same(name, "duration") {
            if let Some(bits) = data.as_double() {
                self.duration = Seconds { bits };
            }
            None
        } else if text::str_same(name, "pause") {
            if let Some(p) = data.as_bool() {
                self.paused = p;
            }
            None
        } else if text::str_same(name, "time-pos") {
            match data.as_double() {
                Some(bits) => self.move_to(Seconds { bits }, now),
                None => None,
            }
        } else {
            None
        }
    }

    /// Takes a line of mpv's socket in. A line that is no JSON is passed over.
    pub fn observe(&mut self, line: &str, now: u64) -> (r: Option<ProgressUpdate>)
        ensures
            match json::json_parsed(line@) {
                Ok(v) => (final(self)@, r) == old(self)@.told(v, now),
                Err(_) => final(self)@ == old(self)@ && r is None,
            },
    {
        match Json::parse(line) {
            Ok(v) => self.on_event(&v, now),
            Err(_) => None,
        }
    }
}

/// How often the socket of a starting player is tried, and how long is waited between.
pub const CONNECT_ATTEMPTS: u32 = 50;

pub const CONNECT_WAIT_MS: u64 = 100;

/// A shared-memory segment that mpv may have left behind: it was not there before and
/// has a name of mpv's.
pub open spec fn left_behind(before: Seq<Seq<char>>, name: Seq<char>) -> bool {
    !before.contains(name) && (text::starts_with(name, "mpv"@) || text::starts_with(
        name,
        "kitty"@,
    ))
}

/// Whether a shared-memory segment can be removed: mpv left it behind, and it is old
/// enough. `age_ms` is `None` when the age is unknown, which counts as old enough.
/// Conservative prefix filter avoids touching unrelated SHM objects from other processes.
pub fn is_removable(before: &Vec<String>, name: &str, age_ms: Option<u64>, min_age_ms: u64) -> (r:
    bool)
    ensures
        r == (left_behind(text::texts(before@), name@) && match age_ms {
            Some(age) => age >= min_age_ms,
            None => true,
        }),
{
    if text::lists(before, name) || !(text::str_begins(name, "mpv") || text::str_begins(name, "kitty")) {
        return false;
    }
    match age_ms {
        Some(age) => age >= min_age_ms,
        None => true,
    }
}

/// A file is removed when the player left it: it was not there before, its name starts as
/// those of mpv or of the terminal do, and it is old enough, if its age is known.
pub proof fn law_removable(
    before: &Vec<String>,
    name: &str,
    age: Option<u64>,
    min_age: u64,
    r: bool,
)
    requires
        call_ensures(is_removable, (before, name, age, min_age), r),
    ensures
        text::texts(before@).contains(name@) ==> !r,
        age matches Some(a) && a < min_age ==> !r,
        !text::starts_with(name@, "mpv"@) && !text::starts_with(name@, "kitty"@) ==> !r,
        !text::texts(before@).contains(name@) && (age is None || age->0 >= min_age) && (
        text::starts_with(name@, "mpv"@) || text::starts_with(name@, "kitty"@)) ==> r,
{
}

} // verus!
