//! The variable store and the substitution of `{{name}}` placeholders.

use crate::bindings::{pairs_map, Bindings};
use crate::error::AppError;
use crate::text::{
    append, chars_of, copy_range, decimal, decimal_string, has_at, holds_at, is_ascii_digit,
    pairs_of, run_end, same_text, scan, string_of, string_of_range, trim, trimmed, CharClass,
};
use vstd::prelude::*;

verus! {

/// The names whose value is made anew each time they are used.
#[derive(Debug, Clone, Copy, PartialEq, Eq, Structural)]
pub enum DynamicVariable {
    /// `$uuid`: a random identifier.
    Uuid,
    /// `$timestamp`: the seconds since the Unix epoch.
    Timestamp,
    /// `$randomInt`: a number from 0 to 999.
    RandomInt,
}

/// The dynamic variable of the name `name`, if it is one.
pub open spec fn dynamic_named(name: Seq<char>) -> Option<DynamicVariable> {
    if name == "$uuid"@ {
        Some(DynamicVariable::Uuid)
    } else if name == "$timestamp"@ {
        Some(DynamicVariable::Timestamp)
    } else if name == "$randomInt"@ {
        Some(DynamicVariable::RandomInt)
    } else {
        None
    }
}

/// Whether `c` is a hexadecimal digit in lower case.
pub open spec fn is_lower_hex(c: char) -> bool {
    is_ascii_digit(c) || ('a' <= c <= 'f')
}

/// The form in which an identifier is written: 32 hexadecimal digits in
/// lower case, in groups of 8, 4, 4, 4 and 12 with `-` between them.
pub open spec fn is_uuid_text(s: Seq<char>) -> bool {
    &&& s.len() == 36
    &&& forall|i: int|
        0 <= i < 36 ==> if i == 8 || i == 13 || i == 18 || i == 23 {
            #[trigger] s[i] == '-'
        } else {
            is_lower_hex(s[i])
        }
}

impl DynamicVariable {
    /// The dynamic variable of the name `name`, if it is one.
    pub fn named(name: &str) -> (r: Option<DynamicVariable>)
        ensures
            r == dynamic_named(name@),
    {
        if same_text(name, "$uuid") {
            Some(DynamicVariable::Uuid)
        } else if same_text(name, "$timestamp") {
            Some(DynamicVariable::Timestamp)
        } else if same_text(name, "$randomInt") {
            Some(DynamicVariable::RandomInt)
        } else {
            None
        }
    }

    /// Whether `out` can be a value of the variable.
    pub open spec fn admits(self, out: Seq<char>) -> bool {
        match self {
            DynamicVariable::Uuid => is_uuid_text(out),
            DynamicVariable::Timestamp => exists|n: nat| n <= u64::MAX && out == decimal(n),
            DynamicVariable::RandomInt => exists|n: nat| n < 1000 && out == decimal(n),
        }
    }

    /// A new value of the variable.
    pub fn generate(&self) -> (r: String)
        ensures
            self.admits(r@),
    {
        match self {
            DynamicVariable::Uuid => fresh_uuid(),
            DynamicVariable::Timestamp => timestamp_text(unix_time().0),
            DynamicVariable::RandomInt => random_int_text(unix_time().1),
        }
    }
}

/// `uuid::Uuid::new_v4` and the `Display` of the identifier it returns: a
/// random identifier in its hyphenated form. The call panics only where the
/// operating system hands out no random bytes.
#[verifier::external_body]
fn fresh_uuid() -> (r: String)
    ensures
        is_uuid_text(r@),
{
    uuid::Uuid::new_v4().to_string()
}

/// `std::time::SystemTime::elapsed` of `std::time::UNIX_EPOCH`: the time
/// that has passed since the Unix epoch, or nothing where the clock stands
/// before the epoch.
#[verifier::external_body]
fn since_epoch() -> (r: Option<std::time::Duration>) {
    std::time::UNIX_EPOCH.elapsed().ok()
}

/// `std::time::Duration::as_secs`: the whole seconds of a duration.
pub assume_specification[ std::time::Duration::as_secs ](d: &std::time::Duration) -> (r: u64)
;

/// `std::time::Duration::subsec_nanos`: what a duration has beyond its whole
/// seconds, in nanoseconds, which are fewer than a thousand million.
pub assume_specification[ std::time::Duration::subsec_nanos ](d: &std::time::Duration) -> (r:
    u32)
    ensures
        r < 1_000_000_000,
;

/// What a clock shows that has measured `elapsed` since the Unix epoch, as
/// seconds and nanoseconds: the time measured, and the epoch itself where
/// nothing was measured because the clock stands before the epoch.
pub open spec fn reading_of(elapsed: Option<(u64, u32)>) -> (u64, u32) {
    match elapsed {
        Some(time) => time,
        None => (0, 0),
    }
}

/// What a clock shows that has measured `elapsed` since the Unix epoch.
pub fn clock_reading(elapsed: Option<(u64, u32)>) -> (r: (u64, u32))
    ensures
        r == reading_of(elapsed),
{
    match elapsed {
        Some(time) => time,
        None => (0, 0),
    }
}

/// What the clock shows: the seconds since the Unix epoch and the
/// nanoseconds of the second that has begun. A clock that stands before the
/// epoch reads as the epoch.
fn unix_time() -> (r: (u64, u32))
    ensures
        r.1 < 1_000_000_000,
{
    let elapsed = match since_epoch() {
        Some(d) => Some((d.as_secs(), d.subsec_nanos())),
        None => None,
    };
    clock_reading(elapsed)
}

/// The value of `$timestamp` at `seconds` after the epoch.
pub fn timestamp_text(seconds: u64) -> (r: String)
    ensures
        r@ == decimal(seconds as nat),
        DynamicVariable::Timestamp.admits(r@),
{
    decimal_string(seconds)
}

/// The value of `$randomInt` when the clock shows `nanos` nanoseconds of the
/// second that has begun: what is left of them after division by 1000.
pub fn random_int_text(nanos: u32) -> (r: String)
    ensures
        r@ == decimal((nanos % 1000) as nat),
        DynamicVariable::RandomInt.admits(r@),
{
    let n: u32 = nanos % 1000;
    decimal_string(n as u64)
}

/// A piece of a text in which placeholders stand.
#[derive(Debug, Clone)]
pub enum Segment {
    /// Text that is taken as it is.
    Text(String),
    /// A placeholder: as it stands in the text, and the name inside it
    /// without the white space around it.
    Placeholder { whole: String, name: String },
}

/// What a segment holds.
pub enum SegmentModel {
    Text(Seq<char>),
    Placeholder { whole: Seq<char>, name: Seq<char> },
}

impl View for Segment {
    type V = SegmentModel;

    open spec fn view(&self) -> SegmentModel {
        match self {
            Segment::Text(s) => SegmentModel::Text(s@),
            Segment::Placeholder { whole, name } => SegmentModel::Placeholder {
                whole: whole@,
                name: name@,
            },
        }
    }
}

/// What each of the segments holds.
pub open spec fn segments_of(v: Seq<Segment>) -> Seq<SegmentModel> {
    v.map_values(|s: Segment| s@)
}

/// The position after the placeholder that starts at `at`, if one starts
/// there: `{{`, one or more characters other than `}`, and `}}`.
pub open spec fn placeholder_end(t: Seq<char>, at: int) -> Option<int> {
    let a = at + "{{"@.len();
    let b = run_end(t, a, CharClass::NotCloseBrace);
    if 0 <= at && has_at(t, at, "{{"@) && a < b && has_at(t, b, "}}"@) {
        Some(b + "}}"@.len())
    } else {
        None
    }
}

/// The placeholder that starts at `at` and ends before `end`.
pub open spec fn placeholder_at(t: Seq<char>, at: int, end: int) -> SegmentModel {
    SegmentModel::Placeholder {
        whole: t.subrange(at, end),
        name: trim(t.subrange(at + "{{"@.len(), end - "}}"@.len())),
    }
}

/// The text `t[from..to]` as a sequence of segments: none where it is empty.
pub open spec fn text_between(t: Seq<char>, from: int, to: int) -> Seq<SegmentModel> {
    if from < to {
        seq![SegmentModel::Text(t.subrange(from, to))]
    } else {
        Seq::empty()
    }
}

/// The segments of `t` from position `from` on, when the text before `at`
/// is known to hold no further placeholder.
pub open spec fn segments_from(t: Seq<char>, from: int, at: int) -> Seq<SegmentModel>
    decreases t.len() - at,
{
    if at >= t.len() || at < 0 {
        text_between(t, from, t.len() as int)
    } else {
        match placeholder_end(t, at) {
            Some(end) => text_between(t, from, at) + seq![placeholder_at(t, at, end)]
                + segments_from(t, end, end),
            None => segments_from(t, from, at + 1),
        }
    }
}

/// The segments of a text. Placeholders are found from left to right; each
/// is the first one that starts after the end of the one before it.
pub open spec fn segments(t: Seq<char>) -> Seq<SegmentModel> {
    segments_from(t, 0, 0)
}

/// Whether a placeholder stands somewhere in `t`.
pub open spec fn has_placeholder(t: Seq<char>) -> bool {
    exists|at: int| 0 <= at < t.len() && (#[trigger] placeholder_end(t, at)) is Some
}

/// The three tiers of a variable store.
pub struct StoreModel {
    /// The values that the environment gives.
    pub env: Map<Seq<char>, Seq<char>>,
    /// The values that response handlers have set.
    pub globals: Map<Seq<char>, Seq<char>>,
    /// The values that the request file declares.
    pub in_place: Map<Seq<char>, Seq<char>>,
}

impl StoreModel {
    /// The value of `name`: that of the request file where it declares the
    /// name, else that of the handlers, else that of the environment.
    pub open spec fn lookup(self, name: Seq<char>) -> Option<Seq<char>> {
        if self.in_place.contains_key(name) {
            Some(self.in_place[name])
        } else if self.globals.contains_key(name) {
            Some(self.globals[name])
        } else if self.env.contains_key(name) {
            Some(self.env[name])
        } else {
            None
        }
    }

    /// Whether `out` can stand for the segment `seg`: a text stands for
    /// itself; a placeholder of a dynamic variable for any value of it; any
    /// other placeholder for the value of its name, or for itself where the
    /// name has none.
    pub open spec fn renders(self, seg: SegmentModel, out: Seq<char>) -> bool {
        match seg {
            SegmentModel::Text(s) => out == s,
            SegmentModel::Placeholder { whole, name } => match dynamic_named(name) {
                Some(kind) => kind.admits(out),
                None => match self.lookup(name) {
                    Some(value) => out == value,
                    None => out == whole,
                },
            },
        }
    }

    /// Whether the texts `parts` can stand for the segments `segs`, one for one.
    pub open spec fn renders_all(self, segs: Seq<SegmentModel>, parts: Seq<Seq<char>>) -> bool {
        &&& parts.len() == segs.len()
        &&& forall|i: int| 0 <= i < segs.len() ==> self.renders(#[trigger] segs[i], parts[i])
    }

    /// Whether `out` is `text` with its placeholders replaced.
    pub open spec fn substitutes(self, text: Seq<char>, out: Seq<char>) -> bool {
        exists|parts: Seq<Seq<char>>|
            self.renders_all(segments(text), parts) && out == #[trigger] parts.flatten()
    }
}

/// The placeholder that starts at `at`, if one does: the bounds of the name
/// inside it, and the position after it.
fn find_placeholder(t: &Vec<char>, at: usize) -> (r: Option<(usize, usize, usize)>)
    requires
        at <= t.len(),
    ensures
        match r {
            Some(found) => {
                &&& placeholder_end(t@, at as int) == Some(found.2 as int)
                &&& found.0 == at + "{{"@.len()
                &&& found.1 == found.2 - "}}"@.len()
                &&& at <= found.0 < found.1 <= found.2 <= t.len()
            },
            None => placeholder_end(t@, at as int) is None,
        },
{
    if !holds_at(t, at, "{{") {
        return None;
    }
    let a = at + "{{".unicode_len();
    let b = scan(t, a, CharClass::NotCloseBrace);
    if a < b && holds_at(t, b, "}}") {
        Some((a, b, b + "}}".unicode_len()))
    } else {
        None
    }
}

/// The segments of `t`.
pub fn split_segments(t: &Vec<char>) -> (r: Vec<Segment>)
    ensures
        segments_of(r@) == segments(t@),
{
    let mut out: Vec<Segment> = Vec::new();
    let mut from: usize = 0;
    let mut at: usize = 0;
    while at < t.len()
        invariant
            from <= at <= t.len(),
            segments(t@) == segments_of(out@) + segments_from(t@, from as int, at as int),
        decreases t.len() - at,
    {
        match find_placeholder(t, at) {
            Some(found) => {
                if from < at {
                    out.push(Segment::Text(string_of_range(t, from, at)));
                }
                let inner = copy_range(t, found.0, found.1);
                let name = trimmed(&inner);
                let piece = Segment::Placeholder {
                    whole: string_of_range(t, at, found.2),
                    name: string_of(&name),
                };
                out.push(piece);
                from = found.2;
                at = found.2;
            },
            None => {
                at += 1;
            },
        }
    }
    if from < t.len() {
        out.push(Segment::Text(string_of_range(t, from, t.len())));
    }
    out
}

/// The segments of `input`.
pub fn segments_in(input: &str) -> (r: Vec<Segment>)
    ensures
        segments_of(r@) == segments(input@),
{
    split_segments(&chars_of(input))
}

/// The three tiers of named values, and the substitution of placeholders
/// by them.
#[derive(Debug, Clone)]
pub struct VariableStore {
    env_vars: Bindings,
    global_vars: Bindings,
    in_place_vars: Bindings,
}

impl View for VariableStore {
    type V = StoreModel;

    closed spec fn view(&self) -> StoreModel {
        StoreModel {
            env: self.env_vars@,
            globals: self.global_vars@,
            in_place: self.in_place_vars@,
        }
    }
}

impl VariableStore {
    /// A store with the values of the environment and no others.
    pub fn new(env_vars: Bindings) -> (r: VariableStore)
        ensures
            r@ == (StoreModel { env: env_vars@, globals: Map::empty(), in_place: Map::empty() }),
    {
        VariableStore { env_vars, global_vars: Bindings::new(), in_place_vars: Bindings::new() }
    }

    /// Takes over the values that a handler has set: each of them replaces
    /// the value of its name among the globals, and no global is removed.
    pub fn merge_globals(&mut self, globals: &Bindings)
        ensures
            final(self)@ == (StoreModel {
                globals: old(self)@.globals.union_prefer_right(globals@),
                ..old(self)@
            }),
    {
        self.global_vars.merge(globals);
    }

    /// Sets the value that the request file declares for `name`.
    pub fn set_in_place(&mut self, name: String, value: String)
        ensures
            final(self)@ == (StoreModel {
                in_place: old(self)@.in_place.insert(name@, value@),
                ..old(self)@
            }),
    {
        self.in_place_vars.insert(name, value);
    }

    /// Sets the values that the request file declares, in the order of the
    /// file: where a name is declared twice, the later declaration counts.
    pub fn declare(&mut self, declarations: &Vec<(String, String)>)
        ensures
            final(self)@ == (StoreModel {
                in_place: old(self)@.in_place.union_prefer_right(
                    pairs_map(pairs_of(declarations@)),
                ),
                ..old(self)@
            }),
    {
        self.in_place_vars.merge(&Bindings::from_pairs(declarations));
    }

    /// The values that response handlers have set.
    pub fn globals(&self) -> (r: &Bindings)
        ensures
            r@ == self@.globals,
    {
        &self.global_vars
    }

    /// The value of `name`, by the precedence of the tiers.
    pub fn lookup(&self, name: &str) -> (r: Option<&String>)
        ensures
            match r {
                Some(v) => self@.lookup(name@) == Some(v@),
                None => self@.lookup(name@) is None,
            },
    {
        match self.in_place_vars.get(name) {
            Some(v) => Some(v),
            None => match self.global_vars.get(name) {
                Some(v) => Some(v),
                None => self.env_vars.get(name),
            },
        }
    }

    /// What stands for one segment.
    pub fn render(&self, segment: &Segment) -> (r: String)
        ensures
            self@.renders(segment@, r@),
    {
        match segment {
            Segment::Text(s) => s.clone(),
            Segment::Placeholder { whole, name } => match DynamicVariable::named(name.as_str()) {
                Some(kind) => kind.generate(),
                None => match self.lookup(name.as_str()) {
                    Some(value) => value.clone(),
                    None => whole.clone(),
                },
            },
        }
    }

    /// Replaces every placeholder in `input`. Each is replaced on its own,
    /// and what replaces it is not read again. A text without a placeholder
    /// comes back as it is. This never fails.
    pub fn substitute(&self, input: &str) -> (r: Result<String, AppError>)
        ensures
            r is Ok,
            self@.substitutes(input@, r->Ok_0@),
            !has_placeholder(input@) ==> r->Ok_0@ == input@,
    {
        let segs = segments_in(input);
        let mut out: Vec<char> = Vec::new();
        let ghost mut parts: Seq<Seq<char>> = Seq::empty();
        let mut i: usize = 0;
        while i < segs.len()
            invariant
                i <= segs.len(),
                segments_of(segs@) == segments(input@),
                self@.renders_all(segments(input@).take(i as int), parts),
                out@ == parts.flatten(),
            decreases segs.len() - i,
        {
            let piece = self.render(&segs[i]);
            append(&mut out, &chars_of(piece.as_str()));
            proof {
                parts.lemma_flatten_push(piece@);
                parts = parts.push(piece@);
            }
            i += 1;
        }
        assert(segments(input@).take(segs@.len() as int) =~= segments(input@));
        proof {
            if !has_placeholder(input@) {
                lemma_substitute_plain_text(self@, input@, out@);
            }
        }
        Ok(string_of(&out))
    }
}

/// Where no placeholder starts from `at` on, what is left is one text.
pub proof fn lemma_segments_of_plain_text(t: Seq<char>, from: int, at: int)
    requires
        0 <= from <= at,
        forall|i: int| at <= i < t.len() ==> (#[trigger] placeholder_end(t, i)) is None,
    ensures
        segments_from(t, from, at) == text_between(t, from, t.len() as int),
    decreases t.len() - at,
{
    if at < t.len() {
        lemma_segments_of_plain_text(t, from, at + 1);
    }
}

/// A text without a placeholder stays as it is, whatever the store holds.
pub proof fn lemma_substitute_plain_text(store: StoreModel, text: Seq<char>, out: Seq<char>)
    requires
        !has_placeholder(text),
        store.substitutes(text, out),
    ensures
        out == text,
{
    lemma_segments_of_plain_text(text, 0, 0);
    let parts = choose|parts: Seq<Seq<char>>|
        store.renders_all(segments(text), parts) && out == #[trigger] parts.flatten();
    if text.len() == 0 {
        assert(parts =~= Seq::<Seq<char>>::empty());
        assert(out =~= text);
    } else {
        assert(segments(text)[0] == SegmentModel::Text(text.subrange(0, text.len() as int)));
        assert(store.renders(segments(text)[0], parts[0]));
        assert(text.subrange(0, text.len() as int) =~= text);
        parts.lemma_flatten_one_element();
        assert(parts.first() == parts[0]);
    }
}

/// The tiers are asked in a fixed order: the request file, then the
/// handlers, then the environment. A name that several of them bind has the
/// value of the first of these that binds it.
pub proof fn lemma_precedence(store: StoreModel, name: Seq<char>)
    ensures
        store.in_place.contains_key(name) ==> store.lookup(name) == Some(store.in_place[name]),
        !store.in_place.contains_key(name) && store.globals.contains_key(name) ==> store.lookup(
            name,
        ) == Some(store.globals[name]),
        !store.in_place.contains_key(name) && !store.globals.contains_key(name)
            && store.env.contains_key(name) ==> store.lookup(name) == Some(store.env[name]),
        !store.in_place.contains_key(name) && !store.globals.contains_key(name)
            && !store.env.contains_key(name) ==> store.lookup(name) is None,
{
}

/// A text that is one placeholder and nothing else becomes the value of the
/// name inside it, taken from the first tier that binds the name; where no
/// tier does, it stays as it is.
pub proof fn lemma_substitute_placeholder(store: StoreModel, inner: Seq<char>, out: Seq<char>)
    requires
        inner.len() > 0,
        forall|i: int| 0 <= i < inner.len() ==> inner[i] != '}',
        dynamic_named(trim(inner)) is None,
        store.substitutes("{{"@ + inner + "}}"@, out),
    ensures
        out == match store.lookup(trim(inner)) {
            Some(value) => value,
            None => "{{"@ + inner + "}}"@,
        },
{
    reveal_strlit("{{");
    reveal_strlit("}}");
    let t = "{{"@ + inner + "}}"@;
    let end = t.len() as int;
    assert(t.subrange(0, 2) =~= "{{"@);
    assert(t.subrange(end - 2, end) =~= "}}"@);
    assert forall|i: int| 2 <= i < end - 2 implies CharClass::NotCloseBrace.has(
        #[trigger] t[i],
    ) by {
        assert(t[i] == inner[i - 2]);
    }
    assert(t[end - 2] == '}');
    crate::text::lemma_run_end_is(t, 2, end - 2, CharClass::NotCloseBrace);
    assert(placeholder_end(t, 0) == Some(end));
    assert(t.subrange(2, end - 2) =~= inner);
    assert(t.subrange(0, end) =~= t);
    assert(segments_from(t, end, end) =~= Seq::<SegmentModel>::empty());
    assert(segments(t) =~= seq![placeholder_at(t, 0, end)]);
    let parts = choose|parts: Seq<Seq<char>>|
        store.renders_all(segments(t), parts) && out == #[trigger] parts.flatten();
    assert(store.renders(segments(t)[0], parts[0]));
    parts.lemma_flatten_one_element();
    assert(parts.first() == parts[0]);
}

} // verus!
