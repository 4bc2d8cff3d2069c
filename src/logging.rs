use vstd::prelude::*;
use vstd::string::StrSliceExecFns;

verus! {

/// An entry of the log shipper's ordered `includes` list.
#[derive(Clone, Debug)]
pub enum Include {
    /// The local output selector (`output-stdout.yaml`).
    Stdout,
    /// The remote output selector (`output-loki.yaml`).
    Remote,
    /// Any other included file, kept as it is.
    Other(String),
}

/// Where the log shipper sends its records.
#[derive(Clone, Copy, Debug, PartialEq, Eq, Structural)]
pub enum Sink {
    Stdout,
    Remote,
}

/// The `control` field of the desired logging configuration.
#[derive(Clone, Copy, Debug, PartialEq, Eq, Structural)]
pub enum Control {
    On,
    Off,
    /// A value this version does not know; it leaves the output selection alone.
    Unsupported,
}

/// The desired logging configuration sent by the cloud.
#[derive(Clone, Copy, Debug)]
pub struct LoggingConfig {
    pub control: Control,
    pub interval: u64,
}

/// The two fields of the log shipper's document that the logging feature
/// manages; everything else in the document is left untouched.
#[derive(Clone, Debug)]
pub struct ShipperConfig {
    pub includes: Vec<Include>,
    /// `service.flush`, absent when the document has none.
    pub flush: Option<u64>,
}

/// What the caller has to do after an update of the configuration.
#[derive(Clone, Copy, Debug, PartialEq, Eq, Structural)]
pub struct UpdateOutcome {
    /// The document changed: write it back and ask the shipper to reload.
    pub write_and_reload: bool,
    /// False when the `control` value was not understood (worth a warning).
    pub control_supported: bool,
    /// False when the interval was not a positive integer; such a
    /// configuration is malformed and applies nothing (worth a warning).
    pub interval_valid: bool,
}

/// The logging feature.
#[derive(Clone, Copy, Debug, Default, PartialEq, Eq, Structural)]
pub struct Logging {}

pub open spec fn selects(i: Include, s: Sink) -> bool {
    match s {
        Sink::Stdout => i is Stdout,
        Sink::Remote => i is Remote,
    }
}

pub open spec fn include_of(s: Sink) -> Include {
    match s {
        Sink::Stdout => Include::Stdout,
        Sink::Remote => Include::Remote,
    }
}

/// The sink an output selection is switched away from, if the control asks for a switch.
pub open spec fn source_of(c: Control) -> Option<Sink> {
    match c {
        Control::On => Some(Sink::Stdout),
        Control::Off => Some(Sink::Remote),
        Control::Unsupported => None,
    }
}

pub open spec fn target_of(c: Control) -> Sink {
    match c {
        Control::Off => Sink::Stdout,
        _ => Sink::Remote,
    }
}

pub open spec fn has_sink(s: Seq<Include>, k: Sink) -> bool {
    exists|i: int| 0 <= i < s.len() && #[trigger] selects(s[i], k)
}

/// `i` is the first position of `s` that selects `k`.
pub open spec fn is_first(s: Seq<Include>, k: Sink, i: int) -> bool {
    &&& 0 <= i < s.len()
    &&& selects(s[i], k)
    &&& forall|j: int| 0 <= j < i ==> !#[trigger] selects(s[j], k)
}

/// The list holds at most one output selector, as the shipper's document should.
pub open spec fn well_formed(s: Seq<Include>) -> bool {
    forall|i: int, j: int|
        0 <= i < s.len() && 0 <= j < s.len() && (#[trigger] s[i] is Stdout || s[i] is Remote)
            && (#[trigger] s[j] is Stdout || s[j] is Remote) ==> i == j
}

/// `new` is `old` after the control's switch: the first entry selecting the
/// source sink is replaced in place by the target sink; with no such entry,
/// or an unsupported control, the list stays as it is.
pub open spec fn switched(old: Seq<Include>, new: Seq<Include>, c: Control) -> bool {
    match source_of(c) {
        None => new == old,
        Some(k) => if has_sink(old, k) {
            exists|i: int| is_first(old, k, i) && new == old.update(i, include_of(target_of(c)))
        } else {
            new == old
        },
    }
}

/// Whether applying `c` to a document with `includes` and `flush` changes it.
pub open spec fn needs_reload(c: LoggingConfig, includes: Seq<Include>, flush: Option<u64>) -> bool {
    flush != Some(c.interval) || match source_of(c.control) {
        Some(k) => has_sink(includes, k),
        None => false,
    }
}

fn is_sink(i: &Include, k: Sink) -> (r: bool)
    ensures
        r == selects(*i, k),
{
    match k {
        Sink::Stdout => matches!(i, Include::Stdout),
        Sink::Remote => matches!(i, Include::Remote),
    }
}

/// The first position of `v` that selects `k`.
pub fn position_of(v: &Vec<Include>, k: Sink) -> (r: Option<usize>)
    ensures
        match r {
            Some(i) => is_first(v@, k, i as int),
            None => !has_sink(v@, k),
        },
{
    let mut n: usize = 0;
    while n < v.len()
        invariant
            n <= v.len(),
            forall|j: int| 0 <= j < n ==> !#[trigger] selects(v@[j], k),
        decreases v.len() - n,
    {
        if is_sink(&v[n], k) {
            return Some(n);
        }
        n = n + 1;
    }
    None
}

/// Whether two strings hold the same characters.
pub fn text_eq(a: &str, b: &str) -> (r: bool)
    ensures
        r == (a@ == b@),
{
    let n = a.unicode_len();
    if n != b.unicode_len() {
        return false;
    }
    let mut i: usize = 0;
    while i < n
        invariant
            i <= n,
            n == a@.len(),
            n == b@.len(),
            forall|j: int| 0 <= j < i ==> a@[j] == b@[j],
        decreases n - i,
    {
        if a.get_char(i) != b.get_char(i) {
            return false;
        }
        i = i + 1;
    }
    proof {
        assert(a@ =~= b@);
    }
    true
}

pub open spec fn control_of(s: Seq<char>) -> Control {
    if s == "on"@ {
        Control::On
    } else if s == "off"@ {
        Control::Off
    } else {
        Control::Unsupported
    }
}

/// Reads the `control` field of a desired configuration.
pub fn parse_control(s: &str) -> (r: Control)
    ensures
        r == control_of(s@),
{
    if text_eq(s, "on") {
        Control::On
    } else if text_eq(s, "off") {
        Control::Off
    } else {
        Control::Unsupported
    }
}

/// The file name an include entry stands for in the shipper's document.
pub open spec fn name_of_include(i: Include) -> Seq<char> {
    match i {
        Include::Stdout => "output-stdout.yaml"@,
        Include::Remote => "output-loki.yaml"@,
        Include::Other(s) => s@,
    }
}

/// Reads one entry of the shipper's `includes` list.
pub fn parse_include(s: &str) -> (r: Include)
    ensures
        s@ == "output-stdout.yaml"@ ==> r is Stdout,
        s@ == "output-loki.yaml"@ ==> r is Remote,
        s@ != "output-stdout.yaml"@ && s@ != "output-loki.yaml"@ ==> r is Other,
        name_of_include(r) == s@,
{
    proof {
        reveal_strlit("output-stdout.yaml");
        reveal_strlit("output-loki.yaml");
        assert("output-stdout.yaml"@.len() != "output-loki.yaml"@.len());
    }
    if text_eq(s, "output-stdout.yaml") {
        Include::Stdout
    } else if text_eq(s, "output-loki.yaml") {
        Include::Remote
    } else {
        Include::Other(s.to_string())
    }
}

/// The text of one entry of the shipper's `includes` list.
pub fn include_name(i: &Include) -> (r: String)
    ensures
        r@ == name_of_include(*i),
{
    match i {
        Include::Stdout => "output-stdout.yaml".to_string(),
        Include::Remote => "output-loki.yaml".to_string(),
        Include::Other(s) => s.clone(),
    }
}

impl Logging {
    pub const ID: &'static str = "logging";

    pub const LOGGING_VERSION: u8 = 1;

    pub fn name(&self) -> (r: String)
        ensures
            r@ == "logging"@,
    {
        proof {
            reveal_strlit("logging");
        }
        Self::ID.to_string()
    }

    pub fn version(&self) -> (r: u8)
        ensures
            r == 1,
    {
        Self::LOGGING_VERSION
    }

    /// The feature is on unless its suppression flag is set to `true`.
    pub fn is_enabled(&self, suppress: Option<&str>) -> (r: bool)
        ensures
            r == !(suppress is Some && suppress.unwrap()@ == "true"@),
    {
        match suppress {
            Some(v) => !text_eq(v, "true"),
            None => true,
        }
    }

    /// Applies a desired logging configuration to the managed fields of the
    /// shipper's document. With no configuration nothing happens. Otherwise
    /// `on` switches the local output for the remote one and `off` the
    /// reverse, an unsupported control leaves the selection alone, and the
    /// flush interval is set to the requested one. An interval of zero makes
    /// the configuration malformed, and nothing is applied. The caller writes the
    /// document and reloads the shipper exactly when something changed.
    pub fn update_configuration(&self, config: Option<LoggingConfig>, doc: &mut ShipperConfig) -> (r: UpdateOutcome)
        ensures
            match config {
                None => {
                    &&& final(doc).includes@ == old(doc).includes@
                    &&& final(doc).flush == old(doc).flush
                    &&& !r.write_and_reload
                    &&& r.control_supported
                    &&& r.interval_valid
                },
                Some(c) => if c.interval == 0 {
                    &&& final(doc).includes@ == old(doc).includes@
                    &&& final(doc).flush == old(doc).flush
                    &&& !r.write_and_reload
                    &&& !r.interval_valid
                } else {
                    &&& switched(old(doc).includes@, final(doc).includes@, c.control)
                    &&& final(doc).flush == Some(c.interval)
                    &&& r.write_and_reload == needs_reload(c, old(doc).includes@, old(doc).flush)
                    &&& r.control_supported == (source_of(c.control) is Some)
                    &&& r.interval_valid
                },
            },
    {
        let c = match config {
            None => {
                return UpdateOutcome { write_and_reload: false, control_supported: true, interval_valid: true };
            },
            Some(c) => c,
        };
        if c.interval == 0 {
            return UpdateOutcome { write_and_reload: false, control_supported: true, interval_valid: false };
        }
        let (from, to, supported) = match c.control {
            Control::On => (Sink::Stdout, Include::Remote, true),
            Control::Off => (Sink::Remote, Include::Stdout, true),
            Control::Unsupported => (Sink::Stdout, Include::Stdout, false),
        };
        let mut changed = false;
        if supported {
            match position_of(&doc.includes, from) {
                Some(i) => {
                    doc.includes.set(i, to);
                    changed = true;
                    proof {
                        assert(is_first(old(doc).includes@, from, i as int));
                    }
                },
                None => {},
            }
        }
        let flush_matches = match doc.flush {
            Some(f) => f == c.interval,
            None => false,
        };
        if !flush_matches {
            doc.flush = Some(c.interval);
            changed = true;
        }
        UpdateOutcome { write_and_reload: changed, control_supported: supported, interval_valid: true }
    }
}

/// Applying the same configuration twice to a well-formed document: the
/// second application leaves the document as the first left it, and needs
/// neither a write nor a reload.
pub proof fn lemma_update_idempotent(
    c: LoggingConfig,
    s0: Seq<Include>,
    s1: Seq<Include>,
    s2: Seq<Include>,
)
    requires
        well_formed(s0),
        switched(s0, s1, c.control),
        switched(s1, s2, c.control),
    ensures
        s2 == s1,
        !needs_reload(c, s1, Some(c.interval)),
{
    match source_of(c.control) {
        None => {},
        Some(k) => {
            if has_sink(s0, k) {
                let i = choose|i: int| is_first(s0, k, i) && s1 == s0.update(i, include_of(target_of(c.control)));
                assert forall|j: int| 0 <= j < s1.len() implies !#[trigger] selects(s1[j], k) by {
                    if j != i {
                        assert(s1[j] == s0[j]);
                        if selects(s0[j], k) {
                            assert(selects(s0[i], k));
                        }
                    }
                }
            }
        },
    }
}

/// An update changes nothing in the output list but the one switched entry:
/// every other included file stays at its place.
pub proof fn lemma_update_keeps_other_entries(c: Control, s0: Seq<Include>, s1: Seq<Include>)
    requires
        switched(s0, s1, c),
    ensures
        s1.len() == s0.len(),
        forall|j: int| 0 <= j < s0.len() && #[trigger] s0[j] is Other ==> s1[j] == s0[j],
{
    match source_of(c) {
        None => {},
        Some(k) => {
            if has_sink(s0, k) {
                let i = choose|i: int| is_first(s0, k, i) && s1 == s0.update(i, include_of(target_of(c)));
                assert forall|j: int| 0 <= j < s0.len() && #[trigger] s0[j] is Other implies s1[j] == s0[j] by {
                    if j == i {
                        assert(selects(s0[i], k));
                    }
                }
            }
        },
    }
}

/// An update keeps the output list well formed: an entry selects an output
/// after the update exactly where one did before, so a list with exactly one
/// selector keeps exactly one, at the same place.
pub proof fn lemma_update_keeps_well_formed(c: Control, s0: Seq<Include>, s1: Seq<Include>)
    requires
        well_formed(s0),
        switched(s0, s1, c),
    ensures
        well_formed(s1),
        s1.len() == s0.len(),
        forall|j: int| 0 <= j < s0.len() ==> ((#[trigger] s1[j] is Stdout || s1[j] is Remote) <==> (s0[j] is Stdout
            || s0[j] is Remote)),
{
    match source_of(c) {
        None => {},
        Some(k) => {
            if has_sink(s0, k) {
                let i = choose|i: int| is_first(s0, k, i) && s1 == s0.update(i, include_of(target_of(c)));
                assert forall|j: int| 0 <= j < s0.len() implies ((#[trigger] s1[j] is Stdout || s1[j] is Remote) <==> (
                s0[j] is Stdout || s0[j] is Remote)) by {
                    if j == i {
                        assert(selects(s0[i], k));
                    }
                }
                assert forall|a: int, b: int|
                    0 <= a < s1.len() && 0 <= b < s1.len() && (#[trigger] s1[a] is Stdout || s1[a] is Remote) && (
                    #[trigger] s1[b] is Stdout || s1[b] is Remote) implies a == b by {
                    assert(s0[a] is Stdout || s0[a] is Remote);
                    assert(s0[b] is Stdout || s0[b] is Remote);
                }
            }
        },
    }
}

} // verus!
