//! Plans: which of several files are sent, and under which names.

use std::path::PathBuf;

use vstd::prelude::*;

use crate::downloads;
use crate::drive::DriveEntry;
use crate::text;
use crate::web;

verus! {

// ---------------------------------------------------------------------------
// Names
// ---------------------------------------------------------------------------

/// The position of the last dot in `s`, zero without one.
pub open spec fn last_dot(s: Seq<char>) -> int
    decreases s.len(),
{
    if s.len() == 0 {
        0
    } else if s.last() == '.' {
        s.len() - 1
    } else {
        last_dot(s.drop_last())
    }
}

/// Where the extension of a file name begins: at its last dot, unless the name
/// begins with that dot.
pub open spec fn extension_at(name: Seq<char>) -> int {
    if last_dot(name) > 0 {
        last_dot(name)
    } else {
        name.len() as int
    }
}

/// A file name with a number before its extension.
pub open spec fn numbered(name: Seq<char>, n: nat) -> Seq<char> {
    name.take(extension_at(name)) + " ("@ + text::decimal(n) + ")"@ + name.skip(extension_at(name))
}

/// Whether the name with the number `n` is taken.
pub open spec fn number_taken(name: Seq<char>, existing: Seq<Seq<char>>, n: nat) -> bool {
    existing.contains(numbered(name, n))
}

/// The first number from `n` on that is free, below ten thousand.
pub open spec fn free_number(name: Seq<char>, existing: Seq<Seq<char>>, n: nat) -> nat
    decreases 10_000 - n,
{
    if n < 10_000 && number_taken(name, existing, n) {
        free_number(name, existing, n + 1)
    } else {
        n
    }
}

/// The name under which a file goes whose own name is taken: with the first
/// free number from one on; where all of them up to ten thousand are taken,
/// with the stamp.
pub open spec fn renamed(name: Seq<char>, existing: Seq<Seq<char>>, stamp: u128) -> Seq<char> {
    let n = free_number(name, existing, 1);
    if n < 10_000 {
        numbered(name, n)
    } else {
        numbered(name, stamp as nat)
    }
}

/// Where the extension of a file name begins.
fn extension_of(v: &Vec<char>) -> (r: usize)
    ensures
        r == extension_at(v@),
        r <= v@.len(),
{
    let n: usize = v.len();
    let mut i: usize = n;
    proof {
        assert(v@.take(n as int) =~= v@);
    }
    while i > 0 && v[i - 1] != '.'
        invariant
            n == v@.len(),
            i <= n,
            last_dot(v@) == last_dot(v@.take(i as int)),
        decreases i,
    {
        proof {
            assert(v@.take(i as int).drop_last() =~= v@.take(i - 1));
        }
        i = i - 1;
    }
    if i > 1 {
        i - 1
    } else {
        n
    }
}

/// Whether one of the names is `name`.
fn is_among(names: &[String], name: &str) -> (r: bool)
    ensures
        r == text::texts(names@).contains(name@),
{
    let ghost all = text::texts(names@);
    let mut i: usize = 0;
    while i < names.len()
        invariant
            all == text::texts(names@),
            i <= names@.len(),
            forall|j: int| 0 <= j < i ==> #[trigger] all[j] != name@,
        decreases names@.len() - i,
    {
        proof {
            assert(all[i as int] == names@[i as int]@);
        }
        if text::same(names[i].as_str(), name) {
            return true;
        }
        i = i + 1;
    }
    false
}

/// A file name with a number before its extension.
fn with_number(stem: &str, ext: &str, n: u128) -> (r: String)
    ensures
        r@ == stem@ + " ("@ + text::decimal(n as nat) + ")"@ + ext@,
{
    let number = text::decimal_of(n);
    let mut s = text::join3(stem, " (", number.as_str());
    s.append(")");
    s.append(ext);
    s
}

/// Finds a name for a file whose own name is taken; the stamp is the number of
/// last resort.
pub fn rename_with(name: &str, existing: &[String], stamp: u128) -> (r: String)
    ensures
        r@ == renamed(name@, text::texts(existing@), stamp),
{
    let v = text::chars_of(name);
    let at: usize = extension_of(&v);
    let n: usize = v.len();
    let stem = text::string_of(&v, 0, at);
    let ext = text::string_of(&v, at, n);
    let ghost taken = text::texts(existing@);
    proof {
        assert(name@.subrange(0, at as int) =~= name@.take(at as int));
        assert(name@.subrange(at as int, n as int) =~= name@.skip(at as int));
    }
    let mut k: u128 = 1;
    while k < 10_000
        invariant
            1 <= k <= 10_000,
            taken == text::texts(existing@),
            at == extension_at(name@),
            stem@ == name@.take(at as int),
            ext@ == name@.skip(at as int),
            free_number(name@, taken, 1) == free_number(name@, taken, k as nat),
        decreases 10_000 - k,
    {
        let candidate = with_number(stem.as_str(), ext.as_str(), k);
        if !is_among(existing, candidate.as_str()) {
            return candidate;
        }
        k = k + 1;
    }
    with_number(stem.as_str(), ext.as_str(), stamp)
}

/// Finds a name for a file whose own name is taken: `x.txt` becomes
/// `x (1).txt`, with the first number that is free.
pub fn rename_away(name: &str, existing: &[String]) -> (r: String)
    ensures
        exists|stamp: u128| #[trigger]
            web::clock_told(stamp) && r@ == renamed(name@, text::texts(existing@), stamp),
{
    let stamp: u128 = web::now_nanos();
    rename_with(name, existing, stamp)
}

// ---------------------------------------------------------------------------
// Plans
// ---------------------------------------------------------------------------

/// What the user says of a name that is taken.
#[derive(Debug, Clone, Copy, PartialEq, Eq, Structural)]
pub enum ConflictChoice {
    Overwrite,
    Rename,
    Cancel,
}

/// A file that is sent, and the name under which it goes.
#[derive(Debug)]
pub struct PlannedUpload {
    pub local_path: PathBuf,
    pub remote_name: String,
}

/// How far a plan has come: the names that are taken, and which files go under
/// which names.
#[verifier::ext_equal]
pub struct PlanModel {
    pub taken: Seq<Seq<char>>,
    pub planned: Seq<(int, Seq<char>)>,
}

/// One more file of a plan: under its own name when that is free, else as the
/// choice says. A file without a usable name is left out.
pub open spec fn plan_one(
    p: PlanModel,
    file: int,
    raw: Option<Seq<char>>,
    choice: ConflictChoice,
    stamp: u128,
) -> PlanModel {
    match usable(raw) {
        None => p,
        Some(base) => if p.taken.contains(base) {
            match choice {
                ConflictChoice::Overwrite => PlanModel {
                    planned: p.planned.push((file, base)),
                    ..p
                },
                ConflictChoice::Rename => PlanModel {
                    taken: p.taken.push(renamed(base, p.taken, stamp)),
                    planned: p.planned.push((file, renamed(base, p.taken, stamp))),
                },
                ConflictChoice::Cancel => p,
            }
        } else {
            PlanModel { taken: p.taken.push(base), planned: p.planned.push((file, base)) }
        },
    }
}

/// The name under which a file would go.
pub open spec fn usable(raw: Option<Seq<char>>) -> Option<Seq<char>> {
    match raw {
        Some(raw) => downloads::file_name(raw),
        None => None,
    }
}

/// The plan for files with the given names against the files that are there,
/// with a choice and a stamp for each of them.
pub open spec fn plan(
    raws: Seq<Option<Seq<char>>>,
    existing: Seq<Seq<char>>,
    choices: Seq<ConflictChoice>,
    stamps: Seq<u128>,
) -> PlanModel
    decreases raws.len(),
{
    if raws.len() == 0 {
        PlanModel { taken: existing, planned: Seq::empty() }
    } else {
        plan_one(
            plan(raws.drop_last(), existing, choices.drop_last(), stamps.drop_last()),
            raws.len() - 1,
            raws.last(),
            choices.last(),
            stamps.last(),
        )
    }
}

/// Whether the name of a file is taken when the plan comes to it: the user is
/// asked exactly then.
pub open spec fn conflicts(
    raws: Seq<Option<Seq<char>>>,
    existing: Seq<Seq<char>>,
    choices: Seq<ConflictChoice>,
    stamps: Seq<u128>,
    i: int,
) -> bool {
    usable(raws[i]) matches Some(base) && plan(
        raws.take(i),
        existing,
        choices.take(i),
        stamps.take(i),
    ).taken.contains(base)
}

/// Whether each choice of a plan is one that the user made for the name, and
/// each stamp for a name that is taken one that the clock told.
pub open spec fn chosen<D: FnMut(&str) -> ConflictChoice>(
    decide: D,
    raws: Seq<Option<Seq<char>>>,
    existing: Seq<Seq<char>>,
    choices: Seq<ConflictChoice>,
    stamps: Seq<u128>,
) -> bool {
    forall|i: int|
        0 <= i < raws.len() && #[trigger] conflicts(raws, existing, choices, stamps, i)
            ==> web::clock_told(stamps[i]) && made_for(decide, usable(raws[i])->0, choices[i])
}

/// Whether the choice is one that the user made for the name.
pub open spec fn made_for<D: FnMut(&str) -> ConflictChoice>(
    decide: D,
    name: Seq<char>,
    choice: ConflictChoice,
) -> bool {
    exists|s: &str| s@ == name && #[trigger] call_ensures(decide, (s,), choice)
}

/// The names of the files that are there.
pub open spec fn entry_names(v: Seq<DriveEntry>) -> Seq<Seq<char>> {
    v.map_values(|e: DriveEntry| e.name@)
}

/// The files of a plan with their names.
pub open spec fn planned_names(v: Seq<(usize, String)>) -> Seq<(int, Seq<char>)> {
    v.map_values(|t: (usize, String)| (t.0 as int, t.1@))
}

/// The names of the files that are there.
fn names_of(entries: &[DriveEntry]) -> (r: Vec<String>)
    ensures
        text::texts(r@) == entry_names(entries@),
{
    let mut out: Vec<String> = Vec::new();
    let mut i: usize = 0;
    while i < entries.len()
        invariant
            i <= entries@.len(),
            out@.len() == i,
            forall|j: int| 0 <= j < i ==> (#[trigger] out@[j])@ == entries@[j].name@,
        decreases entries@.len() - i,
    {
        out.push(entries[i].name.clone());
        i = i + 1;
    }
    proof {
        assert(text::texts(out@) =~= entry_names(entries@));
    }
    out
}

/// Whether a choice and a stamp more leave the choices before them as they
/// were.
proof fn lemma_chosen_push<D: FnMut(&str) -> ConflictChoice>(
    decide: D,
    raws: Seq<Option<Seq<char>>>,
    existing: Seq<Seq<char>>,
    choices: Seq<ConflictChoice>,
    stamps: Seq<u128>,
    n: int,
    choice: ConflictChoice,
    stamp: u128,
)
    requires
        0 <= n < raws.len(),
        choices.len() == n,
        stamps.len() == n,
        chosen(decide, raws.take(n), existing, choices, stamps),
        (usable(raws[n]) matches Some(base) && plan(
            raws.take(n),
            existing,
            choices,
            stamps,
        ).taken.contains(base)) ==> web::clock_told(stamp) && made_for(
            decide,
            usable(raws[n])->0,
            choice,
        ),
    ensures
        chosen(decide, raws.take(n + 1), existing, choices.push(choice), stamps.push(stamp)),
{
    let wider = raws.take(n + 1);
    let cs = choices.push(choice);
    let ss = stamps.push(stamp);
    assert forall|i: int|
        0 <= i < wider.len() && #[trigger] conflicts(
            wider,
            existing,
            cs,
            ss,
            i,
        ) implies web::clock_told(ss[i]) && made_for(decide, usable(wider[i])->0, cs[i]) by {
        assert(wider.take(i) =~= raws.take(n).take(i));
        assert(wider[i] == raws[i]);
        if i < n {
            assert(cs.take(i) =~= choices.take(i));
            assert(ss.take(i) =~= stamps.take(i));
            assert(raws.take(n)[i] == raws[i]);
            assert(conflicts(raws.take(n), existing, choices, stamps, i));
        } else {
            assert(wider.take(i) =~= raws.take(n));
            assert(cs.take(i) =~= choices);
            assert(ss.take(i) =~= stamps);
        }
    }
}

/// A plan as it goes through the files one by one.
#[derive(Debug)]
pub struct PlanRun {
    /// The names of the files.
    pub raws: Vec<Option<String>>,
    /// The file that comes next.
    pub next: usize,
    /// The names that are taken.
    pub names: Vec<String>,
    /// Which files go under which names.
    pub planned: Vec<(usize, String)>,
}

/// The model of [`PlanRun`].
#[verifier::ext_equal]
pub struct RunModel {
    pub raws: Seq<Option<Seq<char>>>,
    pub at: int,
    pub plan: PlanModel,
}

impl View for PlanRun {
    type V = RunModel;

    open spec fn view(&self) -> RunModel {
        RunModel {
            raws: text::opt_texts(self.raws@),
            at: self.next as int,
            plan: PlanModel {
                taken: text::texts(self.names@),
                planned: planned_names(self.planned@),
            },
        }
    }
}

/// What a plan needs next.
#[derive(Debug, PartialEq)]
pub enum PlanStep {
    /// The user is asked what to do with the name, which is taken.
    Ask { name: String },
    /// Nothing: every file was gone through.
    Done,
}

/// The name that the user is asked about: that of the next file, where it is
/// taken.
pub open spec fn question(m: RunModel) -> Option<Seq<char>> {
    if 0 <= m.at < m.raws.len() && (usable(m.raws[m.at]) matches Some(base)
        && m.plan.taken.contains(base)) {
        usable(m.raws[m.at])
    } else {
        None
    }
}

/// The plan after the next file, with the choice and the stamp for it.
pub open spec fn advanced(m: RunModel, choice: ConflictChoice, stamp: u128) -> RunModel {
    RunModel {
        at: m.at + 1,
        plan: plan_one(m.plan, m.at, m.raws[m.at], choice, stamp),
        ..m
    }
}

/// The plan after an answer: without a question it is not heard.
pub open spec fn answered(m: RunModel, answer: Option<ConflictChoice>, stamp: u128) -> RunModel {
    match answer {
        Some(choice) => if question(m) is Some {
            advanced(m, choice, stamp)
        } else {
            m
        },
        None => m,
    }
}

/// The plan after every file up to the next question or the end.
pub open spec fn settled(m: RunModel) -> RunModel
    decreases m.raws.len() - m.at,
{
    if m.at >= m.raws.len() || question(m) is Some {
        m
    } else {
        settled(advanced(m, ConflictChoice::Cancel, 0))
    }
}

/// A copy of a list of optional names.
fn clone_names(v: &Vec<Option<String>>) -> (r: Vec<Option<String>>)
    ensures
        r@ == v@,
{
    let mut out: Vec<Option<String>> = Vec::new();
    let mut i: usize = 0;
    while i < v.len()
        invariant
            i <= v@.len(),
            out@.len() == i,
            forall|j: int| 0 <= j < i ==> #[trigger] out@[j] == v@[j],
        decreases v@.len() - i,
    {
        out.push(text::clone_opt(&v[i]));
        i = i + 1;
    }
    proof {
        assert(out@ =~= v@);
    }
    out
}

impl PlanRun {
    /// A plan for files with the given names against the files that are there,
    /// before the first of them.
    pub fn new(raws: &Vec<Option<String>>, existing: &[DriveEntry]) -> (r: Self)
        ensures
            r@ == (RunModel {
                raws: text::opt_texts(raws@),
                at: 0,
                plan: PlanModel { taken: entry_names(existing@), planned: Seq::empty() },
            }),
    {
        let r = PlanRun {
            raws: clone_names(raws),
            next: 0,
            names: names_of(existing),
            planned: Vec::new(),
        };
        proof {
            assert(r@.plan.planned =~= Seq::<(int, Seq<char>)>::empty());
        }
        r
    }

    /// The name under which the next file would go.
    fn base(&self) -> (r: Option<String>)
        requires
            self.next < self.raws@.len(),
        ensures
            text::opt_text(r) == usable(self@.raws[self@.at]),
    {
        match &self.raws[self.next] {
            Some(raw) => downloads::sanitize_filename(raw.as_str()),
            None => None,
        }
    }

    /// The name that the user is asked about.
    fn asks(&self) -> (r: Option<String>)
        requires
            self.next < self.raws@.len(),
        ensures
            text::opt_text(r) == question(self@),
    {
        match self.base() {
            Some(base) => if is_among(self.names.as_slice(), base.as_str()) {
                Some(base)
            } else {
                None
            },
            None => None,
        }
    }

    /// Goes past the next file.
    fn advance(&mut self, choice: ConflictChoice, stamp: u128)
        requires
            old(self).next < old(self).raws@.len(),
        ensures
            final(self)@ == advanced(old(self)@, choice, stamp),
            final(self).raws == old(self).raws,
    {
        let ghost before = self@;
        let file: usize = self.next;
        let count: usize = self.raws.len();
        proof {
            assert(file < count);
        }
        let base = self.base();
        self.next = file + 1;
        match base {
            Some(base) => {
                if is_among(self.names.as_slice(), base.as_str()) {
                    match choice {
                        ConflictChoice::Overwrite => {
                            self.planned.push((file, base));
                        },
                        ConflictChoice::Rename => {
                            let fresh = rename_with(base.as_str(), self.names.as_slice(), stamp);
                            self.names.push(fresh.clone());
                            self.planned.push((file, fresh));
                        },
                        ConflictChoice::Cancel => {},
                    }
                } else {
                    self.names.push(base.clone());
                    self.planned.push((file, base));
                }
            },
            None => {},
        }
        proof {
            let after = advanced(before, choice, stamp);
            assert(self@.plan.taken =~= after.plan.taken);
            assert(self@.plan.planned =~= after.plan.planned);
        }
    }

    /// Takes the answer to the last question in, where there was one, and goes
    /// on to the next: the user is asked about exactly the names that are
    /// taken when their files come, in the order of the files. The stamp is
    /// the number of last resort for a new name.
    pub fn step(&mut self, answer: Option<ConflictChoice>, stamp: u128) -> (r: PlanStep)
        ensures
            final(self)@ == settled(answered(old(self)@, answer, stamp)),
            final(self).raws == old(self).raws,
            match question(final(self)@) {
                Some(n) => r matches PlanStep::Ask { name } && name@ == n,
                None => r is Done && final(self)@.at >= final(self)@.raws.len(),
            },
    {
        if let Some(choice) = answer {
            if self.next < self.raws.len() && self.asks().is_some() {
                self.advance(choice, stamp);
            }
        }
        let ghost start = self@;
        while self.next < self.raws.len()
            invariant
                self.raws == old(self).raws,
                start == answered(old(self)@, answer, stamp),
                settled(self@) == settled(start),
            decreases self.raws@.len() - self.next,
        {
            match self.asks() {
                Some(name) => {
                    return PlanStep::Ask { name };
                },
                None => {},
            }
            self.advance(ConflictChoice::Cancel, 0);
        }
        PlanStep::Done
    }
}

/// The choices, and no more choices than files: those that were not asked for
/// do not count.
pub open spec fn padded(choices: Seq<ConflictChoice>, n: int) -> Seq<ConflictChoice> {
    Seq::new(
        n as nat,
        |i: int|
            if i < choices.len() {
                choices[i]
            } else {
                ConflictChoice::Cancel
            },
    )
}

/// The stamps, with zero for the files that got no new name.
pub open spec fn padded_stamps(stamps: Seq<u128>, n: int) -> Seq<u128> {
    Seq::new(
        n as nat,
        |i: int|
            if i < stamps.len() {
                stamps[i]
            } else {
                0
            },
    )
}

/// One more file of a plan.
proof fn lemma_plan_push(
    raws: Seq<Option<Seq<char>>>,
    existing: Seq<Seq<char>>,
    choices: Seq<ConflictChoice>,
    stamps: Seq<u128>,
    n: int,
    choice: ConflictChoice,
    stamp: u128,
)
    requires
        0 <= n < raws.len(),
        choices.len() == n,
        stamps.len() == n,
    ensures
        plan(raws.take(n + 1), existing, choices.push(choice), stamps.push(stamp)) == plan_one(
            plan(raws.take(n), existing, choices, stamps),
            n,
            raws[n],
            choice,
            stamp,
        ),
{
    assert(raws.take(n + 1).drop_last() =~= raws.take(n));
    assert(choices.push(choice).drop_last() =~= choices);
    assert(stamps.push(stamp).drop_last() =~= stamps);
}

/// Between two questions no name is taken, and the plan is that for the files
/// gone through.
pub proof fn lemma_settled(
    m: RunModel,
    existing: Seq<Seq<char>>,
    choices: Seq<ConflictChoice>,
    stamps: Seq<u128>,
)
    requires
        0 <= m.at <= m.raws.len(),
        choices.len() == m.at,
        stamps.len() == m.at,
        m.plan == plan(m.raws.take(m.at), existing, choices, stamps),
    ensures
        ({
            let after = settled(m);
            let cs = padded(choices, after.at);
            let ss = padded_stamps(stamps, after.at);
            &&& m.at <= after.at <= m.raws.len()
            &&& after.raws == m.raws
            &&& after.plan == plan(m.raws.take(after.at), existing, cs, ss)
            &&& forall|i: int|
                m.at <= i < after.at ==> !#[trigger] conflicts(m.raws, existing, cs, ss, i)
            &&& after.at < m.raws.len() ==> conflicts(m.raws, existing, cs, ss, after.at)
            &&& after.at == m.raws.len() || question(after) is Some
        }),
    decreases m.raws.len() - m.at,
{
    let after = settled(m);
    let cs = padded(choices, after.at);
    let ss = padded_stamps(stamps, after.at);
    if m.at >= m.raws.len() || question(m) is Some {
        assert(cs =~= choices);
        assert(ss =~= stamps);
        assert(cs.take(m.at) =~= choices);
        assert(ss.take(m.at) =~= stamps);
    } else {
        let more = choices.push(ConflictChoice::Cancel);
        let marks = stamps.push(0u128);
        lemma_plan_push(
            m.raws,
            existing,
            choices,
            stamps,
            m.at,
            ConflictChoice::Cancel,
            0,
        );
        lemma_settled(advanced(m, ConflictChoice::Cancel, 0), existing, more, marks);
        assert(padded(more, after.at) =~= cs);
        assert(padded_stamps(marks, after.at) =~= ss);
        assert(cs.take(m.at) =~= choices);
        assert(ss.take(m.at) =~= stamps);
    }
}

/// Choices that were not asked for leave those that were as they are.
proof fn lemma_chosen_settled<D: FnMut(&str) -> ConflictChoice>(
    decide: D,
    m: RunModel,
    existing: Seq<Seq<char>>,
    choices: Seq<ConflictChoice>,
    stamps: Seq<u128>,
)
    requires
        0 <= m.at <= m.raws.len(),
        choices.len() == m.at,
        stamps.len() == m.at,
        m.plan == plan(m.raws.take(m.at), existing, choices, stamps),
        chosen(decide, m.raws.take(m.at), existing, choices, stamps),
    ensures
        chosen(
            decide,
            m.raws.take(settled(m).at),
            existing,
            padded(choices, settled(m).at),
            padded_stamps(stamps, settled(m).at),
        ),
    decreases m.raws.len() - m.at,
{
    if m.at >= m.raws.len() || question(m) is Some {
        assert(padded(choices, m.at) =~= choices);
        assert(padded_stamps(stamps, m.at) =~= stamps);
    } else {
        let more = choices.push(ConflictChoice::Cancel);
        let marks = stamps.push(0u128);
        let next = advanced(m, ConflictChoice::Cancel, 0);
        lemma_plan_push(
            m.raws,
            existing,
            choices,
            stamps,
            m.at,
            ConflictChoice::Cancel,
            0,
        );
        lemma_chosen_push(
            decide,
            m.raws,
            existing,
            choices,
            stamps,
            m.at,
            ConflictChoice::Cancel,
            0,
        );
        lemma_chosen_settled(decide, next, existing, more, marks);
        lemma_settled(next, existing, more, marks);
        assert(padded(more, settled(m).at) =~= padded(choices, settled(m).at));
        assert(padded_stamps(marks, settled(m).at) =~= padded_stamps(stamps, settled(m).at));
    }
}

/// Plans files with the given names against the files that are there. The user
/// is asked once for each name that is taken.
pub fn plan_names<D: FnMut(&str) -> ConflictChoice>(
    raws: &Vec<Option<String>>,
    existing: &[DriveEntry],
    mut decide: D,
) -> (r: Vec<(usize, String)>)
    requires
        forall|s: &str| #[trigger] call_requires(decide, (s,)),
    ensures
        exists|choices: Seq<ConflictChoice>, stamps: Seq<u128>|
            {
                &&& choices.len() == raws@.len()
                &&& stamps.len() == raws@.len()
                &&& #[trigger] chosen(
                    decide,
                    text::opt_texts(raws@),
                    entry_names(existing@),
                    choices,
                    stamps,
                )
                &&& planned_names(r@) == plan(
                    text::opt_texts(raws@),
                    entry_names(existing@),
                    choices,
                    stamps,
                ).planned
            },
{
    let ghost all = text::opt_texts(raws@);
    let ghost there = entry_names(existing@);
    let ghost asked = decide;
    let ghost mut choices: Seq<ConflictChoice> = Seq::empty();
    let ghost mut stamps: Seq<u128> = Seq::empty();
    let mut run = PlanRun::new(raws, existing);
    let ghost start = run@;
    let mut step = run.step(None, 0);
    proof {
        assert(all.take(0) =~= Seq::<Option<Seq<char>>>::empty());
        lemma_settled(start, there, choices, stamps);
        lemma_chosen_settled(asked, start, there, choices, stamps);
        choices = padded(choices, run@.at);
        stamps = padded_stamps(stamps, run@.at);
    }
    loop
        invariant
            all == text::opt_texts(raws@),
            there == entry_names(existing@),
            decide == asked,
            forall|s: &str| #[trigger] call_requires(decide, (s,)),
            run@.raws == all,
            0 <= run@.at <= all.len(),
            choices.len() == run@.at,
            stamps.len() == run@.at,
            run@.plan == plan(all.take(run@.at), there, choices, stamps),
            chosen(asked, all.take(run@.at), there, choices, stamps),
            match question(run@) {
                Some(n) => step matches PlanStep::Ask { name } && name@ == n,
                None => step is Done && run@.at >= all.len(),
            },
        ensures
            step is Done,
        decreases all.len() - run@.at,
    {
        let ghost before = run@;
        let name: String = match &step {
            PlanStep::Ask { name } => name.clone(),
            PlanStep::Done => {
                break;
            },
        };
        let shown: &str = name.as_str();
        let choice: ConflictChoice = decide(shown);
        let stamp: u128 = web::now_nanos();
        step = run.step(Some(choice), stamp);
        proof {
            assert(call_ensures(asked, (shown,), choice));
            assert(made_for(asked, usable(all[before.at])->0, choice));
            lemma_plan_push(all, there, choices, stamps, before.at, choice, stamp);
            lemma_chosen_push(asked, all, there, choices, stamps, before.at, choice, stamp);
            choices = choices.push(choice);
            stamps = stamps.push(stamp);
            let mid = advanced(before, choice, stamp);
            lemma_settled(mid, there, choices, stamps);
            lemma_chosen_settled(asked, mid, there, choices, stamps);
            choices = padded(choices, run@.at);
            stamps = padded_stamps(stamps, run@.at);
        }
    }
    proof {
        assert(all.take(run@.at) =~= all);
        assert(chosen(decide, all, there, choices, stamps));
    }
    run.planned
}

/// The names of the files at the given paths.
fn file_names(files: &[PathBuf]) -> (r: Vec<Option<String>>)
    ensures
        names_files(r@, files@),
{
    let mut out: Vec<Option<String>> = Vec::new();
    let mut i: usize = 0;
    while i < files.len()
        invariant
            i <= files@.len(),
            out@.len() == i,
            forall|j: int| 0 <= j < i ==> web::named(Some(files@[j]), #[trigger] out@[j]),
        decreases files@.len() - i,
    {
        out.push(web::name_at(&files[i]));
        i = i + 1;
    }
    out
}

/// Whether each name is one that the operating system gives for the file at the
/// same position.
pub open spec fn names_files(raws: Seq<Option<String>>, files: Seq<PathBuf>) -> bool {
    &&& raws.len() == files.len()
    &&& forall|j: int|
        0 <= j < raws.len() ==> web::named(Some(files[j]), #[trigger] raws[j])
}

/// Whether the uploads are those of the plan.
pub open spec fn follows(
    uploads: Seq<PlannedUpload>,
    files: Seq<PathBuf>,
    planned: Seq<(int, Seq<char>)>,
) -> bool {
    &&& uploads.len() == planned.len()
    &&& forall|j: int|
        0 <= j < uploads.len() ==> 0 <= planned[j].0 < files.len() && (
        #[trigger] uploads[j]).local_path == files[planned[j].0] && uploads[j].remote_name@
            == planned[j].1
}

/// A plan speaks of the given files alone.
proof fn lemma_plan_range(
    raws: Seq<Option<Seq<char>>>,
    existing: Seq<Seq<char>>,
    choices: Seq<ConflictChoice>,
    stamps: Seq<u128>,
)
    ensures
        forall|j: int|
            0 <= j < plan(raws, existing, choices, stamps).planned.len() ==> 0 <= (
            #[trigger] plan(raws, existing, choices, stamps).planned[j]).0 < raws.len(),
    decreases raws.len(),
{
    if raws.len() > 0 {
        let (cs, ss) = (choices.drop_last(), stamps.drop_last());
        lemma_plan_range(raws.drop_last(), existing, cs, ss);
        let before = plan(raws.drop_last(), existing, cs, ss).planned;
        let after = plan(raws, existing, choices, stamps).planned;
        assert forall|j: int| 0 <= j < after.len() implies 0 <= (#[trigger] after[j]).0
            < raws.len() by {
            if j < before.len() {
                assert(after[j] == before[j]);
            }
        }
    }
}

/// Plans which of the files at the given paths are sent under which names,
/// against the files that are there. What the file at a path is called is up
/// to the operating system.
pub fn plan_uploads<D: FnMut(&str) -> ConflictChoice>(
    files: &[PathBuf],
    existing: &[DriveEntry],
    decide: D,
) -> (r: Vec<PlannedUpload>)
    requires
        forall|s: &str| #[trigger] call_requires(decide, (s,)),
    ensures
        exists|raws: Seq<Option<String>>, choices: Seq<ConflictChoice>, stamps: Seq<u128>|
            {
                &&& names_files(raws, files@)
                &&& choices.len() == files@.len()
                &&& stamps.len() == files@.len()
                &&& #[trigger] chosen(
                    decide,
                    text::opt_texts(raws),
                    entry_names(existing@),
                    choices,
                    stamps,
                )
                &&& follows(
                    r@,
                    files@,
                    plan(
                        text::opt_texts(raws),
                        entry_names(existing@),
                        choices,
                        stamps,
                    ).planned,
                )
            },
{
    let raws = file_names(files);
    let ghost texts = text::opt_texts(raws@);
    let ghost there = entry_names(existing@);
    let planned = plan_names(&raws, existing, decide);
    let ghost (choices, stamps) = choose|choices: Seq<ConflictChoice>, stamps: Seq<u128>|
        {
            &&& choices.len() == raws@.len()
            &&& stamps.len() == raws@.len()
            &&& #[trigger] chosen(decide, texts, there, choices, stamps)
            &&& planned_names(planned@) == plan(texts, there, choices, stamps).planned
        };
    let ghost wanted = plan(texts, there, choices, stamps).planned;
    proof {
        lemma_plan_range(texts, there, choices, stamps);
    }
    let mut out: Vec<PlannedUpload> = Vec::new();
    let mut i: usize = 0;
    while i < planned.len()
        invariant
            wanted == planned_names(planned@),
            forall|j: int| 0 <= j < wanted.len() ==> 0 <= (#[trigger] wanted[j]).0 < files@.len(),
            i <= planned@.len(),
            out@.len() == i,
            forall|j: int|
                0 <= j < i ==> (#[trigger] out@[j]).local_path == files@[wanted[j].0]
                    && out@[j].remote_name@ == wanted[j].1,
        decreases planned@.len() - i,
    {
        proof {
            assert(wanted[i as int] == (planned@[i as int].0 as int, planned@[i as int].1@));
        }
        let k: usize = planned[i].0;
        out.push(
            PlannedUpload { local_path: files[k].clone(), remote_name: planned[i].1.clone() },
        );
        i = i + 1;
    }
    proof {
        assert(chosen(decide, text::opt_texts(raws@), there, choices, stamps));
        assert(follows(out@, files@, wanted));
    }
    out
}

} // verus!
