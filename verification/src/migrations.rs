//! The schema-migration engine: which scripts run, in which order, and what
//! the ledger of applied scripts holds afterwards.
//!
//! The engine never touches a store itself.  It hands out one script at a
//! time, is told how applying it went, and keeps the ledger in step.

use vstd::prelude::*;
use crate::text::{chars_of, equal, split, split_on, trim, trimmed, views};

verus! {

/// Whether a file name ends in `.sql` with at least one character before it.
pub open spec fn has_sql_extension(name: Seq<char>) -> bool {
    name.len() > 4 && name.subrange(name.len() - 4, name.len() as int) == seq!['.', 's', 'q', 'l']
}

/// The trimmed, non-empty ones among `pieces`, in order.
pub open spec fn nonblank(pieces: Seq<Seq<char>>) -> Seq<Seq<char>>
    decreases pieces.len(),
{
    if pieces.len() == 0 {
        Seq::empty()
    } else {
        let init = nonblank(pieces.drop_last());
        let t = trimmed(pieces.last());
        if t.len() == 0 {
            init
        } else {
            init.push(t)
        }
    }
}

/// The statements of a script: its `;`-separated pieces, trimmed, without
/// the empty ones.
pub open spec fn statements(sql: Seq<char>) -> Seq<Seq<char>> {
    nonblank(split_on(sql, ';'))
}

/// Code-point lexicographic order, the order of Rust strings.
pub open spec fn lex_le(a: Seq<char>, b: Seq<char>) -> bool
    decreases a.len(),
{
    if a.len() == 0 {
        true
    } else if b.len() == 0 {
        false
    } else if a[0] == b[0] {
        lex_le(a.drop_first(), b.drop_first())
    } else {
        a[0] < b[0]
    }
}

/// Every name is at or before each name that follows it.
pub open spec fn sorted(names: Seq<Seq<char>>) -> bool {
    forall|i: int, j: int| 0 <= i < j < names.len() ==> lex_le(#[trigger] names[i], #[trigger] names[j])
}

/// The names among `entries` that end in `.sql`, in the order given.
pub open spec fn sql_entries(entries: Seq<Seq<char>>) -> Seq<Seq<char>>
    decreases entries.len(),
{
    if entries.len() == 0 {
        Seq::empty()
    } else {
        let init = sql_entries(entries.drop_last());
        if has_sql_extension(entries.last()) {
            init.push(entries.last())
        } else {
            init
        }
    }
}

/// Whether a directory entry of this name is a migration script.
pub fn is_sql_file(name: &str) -> (r: bool)
    ensures
        r == has_sql_extension(name@),
{
    let n: usize = name.unicode_len();
    if n <= 4 {
        return false;
    }
    let tail = name.substring_char(n - 4, n);
    proof {
        reveal_strlit(".sql");
        assert(".sql"@ =~= seq!['.', 's', 'q', 'l']);
    }
    equal(tail, ".sql")
}

/// Splits a script into the statements to execute, in order.
pub fn split_statements(sql: &str) -> (r: Vec<String>)
    ensures
        views(r@) == statements(sql@),
{
    let pieces = split(sql, ';');
    let mut out: Vec<String> = Vec::new();
    let mut i: usize = 0;
    proof {
        assert(views(pieces@).subrange(0, 0) =~= Seq::empty());
        assert(views(out@) =~= Seq::empty());
    }
    while i < pieces.len()
        invariant
            i <= pieces.len(),
            views(out@) == nonblank(views(pieces@).subrange(0, i as int)),
        decreases pieces.len() - i,
    {
        let ghost before = views(out@);
        let t = trim(pieces[i].as_str());
        if t.as_str().unicode_len() != 0 {
            out.push(t);
        }
        i += 1;
        proof {
            let p = views(pieces@).subrange(0, i as int);
            assert(p.drop_last() =~= views(pieces@).subrange(0, i - 1));
            assert(p.last() == pieces@[i - 1]@);
            if trimmed(p.last()).len() != 0 {
                assert(views(out@) =~= before.push(trimmed(p.last())));
            }
        }
    }
    proof {
        assert(views(pieces@).subrange(0, pieces@.len() as int) =~= views(pieces@));
    }
    out
}

/// The rows without repeats: each name where it first occurs.
pub open spec fn first_occurrences(rows: Seq<Seq<char>>) -> Seq<Seq<char>>
    decreases rows.len(),
{
    if rows.len() == 0 {
        Seq::empty()
    } else {
        let init = first_occurrences(rows.drop_last());
        if init.contains(rows.last()) {
            init
        } else {
            init.push(rows.last())
        }
    }
}

/// The append-only record of the scripts that were applied: their file names,
/// oldest first, each at most once.
pub struct Ledger {
    applied: Vec<String>,
}

impl Ledger {
    /// The recorded file names, oldest first.
    pub closed spec fn view(&self) -> Seq<Seq<char>> {
        views(self.applied@)
    }

    /// No file name is recorded twice.
    pub open spec fn wf(&self) -> bool {
        self@.no_duplicates()
    }

    /// The ledger of a store to which nothing was applied yet.
    pub fn new() -> (r: Ledger)
        ensures
            r@ == Seq::<Seq<char>>::empty(),
            r.wf(),
    {
        let r = Ledger { applied: Vec::new() };
        proof {
            assert(r@ =~= Seq::<Seq<char>>::empty());
        }
        r
    }

    /// The number of rows.
    pub fn len(&self) -> (n: usize)
        ensures
            n == self@.len(),
    {
        self.applied.len()
    }

    /// Whether the script of this name was applied.
    pub fn contains(&self, filename: &str) -> (r: bool)
        ensures
            r == self@.contains(filename@),
    {
        let mut i: usize = 0;
        while i < self.applied.len()
            invariant
                i <= self.applied.len(),
                forall|j: int| 0 <= j < i ==> self@[j] != filename@,
            decreases self.applied.len() - i,
        {
            if equal(self.applied[i].as_str(), filename) {
                proof {
                    assert(self@[i as int] == filename@);
                }
                return true;
            }
            i += 1;
        }
        false
    }

    /// Adds a row for `filename` unless there is one already; says whether
    /// a row was added.
    pub fn record(&mut self, filename: &str) -> (added: bool)
        requires
            old(self).wf(),
        ensures
            final(self).wf(),
            added == !old(self)@.contains(filename@),
            added ==> final(self)@ == old(self)@.push(filename@),
            !added ==> final(self)@ == old(self)@,
    {
        if self.contains(filename) {
            return false;
        }
        let ghost before = self@;
        self.applied.push(filename.to_owned());
        proof {
            assert(self@ =~= before.push(filename@));
        }
        true
    }

    /// The ledger that holds each of `rows` once, in the order of their
    /// first occurrence.
    pub fn from_rows(rows: &Vec<String>) -> (r: Ledger)
        ensures
            r.wf(),
            r@ == first_occurrences(views(rows@)),
    {
        let mut out = Ledger::new();
        let mut i: usize = 0;
        proof {
            assert(views(rows@).subrange(0, 0) =~= Seq::empty());
        }
        while i < rows.len()
            invariant
                i <= rows.len(),
                out.wf(),
                out@ == first_occurrences(views(rows@).subrange(0, i as int)),
            decreases rows.len() - i,
        {
            out.record(rows[i].as_str());
            i += 1;
            proof {
                let now = views(rows@).subrange(0, i as int);
                assert(now.drop_last() =~= views(rows@).subrange(0, i - 1));
                assert(now.last() == rows@[i - 1]@);
            }
        }
        proof {
            assert(views(rows@).subrange(0, rows@.len() as int) =~= views(rows@));
        }
        out
    }

    /// A copy of the recorded file names, oldest first.
    pub fn filenames(&self) -> (r: Vec<String>)
        ensures
            views(r@) == self@,
    {
        let mut out: Vec<String> = Vec::new();
        let mut i: usize = 0;
        while i < self.applied.len()
            invariant
                i <= self.applied.len(),
                views(out@) == self@.subrange(0, i as int),
            decreases self.applied.len() - i,
        {
            let ghost before = views(out@);
            let name = self.applied[i].clone();
            out.push(name);
            i += 1;
            proof {
                assert(views(out@) =~= before.push(self@[i - 1]));
                assert(before.push(self@[i - 1]) =~= self@.subrange(0, i as int));
            }
        }
        proof {
            assert(self@.subrange(0, self@.len() as int) =~= self@);
        }
        out
    }
}

/// Where a run stands: the scripts in the order in which they are taken up,
/// how many of them are dealt with, what the ledger holds, whether the
/// engine waits to hear about the script at `pos`, and whether it gave up.
pub struct RunState {
    pub queue: Seq<Seq<char>>,
    pub pos: int,
    pub ledger: Seq<Seq<char>>,
    pub awaiting: bool,
    pub halted: bool,
}

/// What the caller tells the engine.
#[derive(Clone, Copy, Debug, PartialEq, Eq)]
pub enum Event {
    /// Nothing happened yet: asks for the script in hand.
    Begin,
    /// Every statement of the script in hand ran and was committed together
    /// with its ledger row.
    Applied,
    /// The script in hand could not be read.
    Unreadable,
    /// A statement of the script in hand failed; nothing of it was kept.
    Failed,
}

/// What the engine asks of the caller.
#[derive(Debug)]
pub enum Action {
    /// Read the script of this name and apply it in one transaction.
    Apply(String),
    /// Nothing is left to apply.
    Finished,
    /// A script failed: the run is over and the store must not be served.
    Halted,
}

/// What holds of every state of a run: the position is within the queue, no
/// ledger row occurs twice, and a script in hand has no row yet.
pub open spec fn state_wf(s: RunState) -> bool {
    &&& 0 <= s.pos <= s.queue.len()
    &&& s.ledger.no_duplicates()
    &&& s.awaiting ==> s.pos < s.queue.len() && !s.ledger.contains(s.queue[s.pos]) && !s.halted
}

/// The state before the first step of a run.
pub open spec fn start_state(queue: Seq<Seq<char>>, ledger: Seq<Seq<char>>) -> RunState {
    RunState { queue, pos: 0, ledger, awaiting: false, halted: false }
}

/// The state once the news about the script in hand is taken in.  Only an
/// applied script gets a ledger row; an unreadable one is passed over
/// without one; a failed one ends the run.
pub open spec fn settle(s: RunState, e: Event) -> RunState {
    if !s.awaiting {
        s
    } else {
        match e {
            Event::Begin => s,
            Event::Applied => RunState {
                queue: s.queue,
                pos: s.pos + 1,
                ledger: s.ledger.push(s.queue[s.pos]),
                awaiting: false,
                halted: false,
            },
            Event::Unreadable => RunState {
                queue: s.queue,
                pos: s.pos + 1,
                ledger: s.ledger,
                awaiting: false,
                halted: false,
            },
            Event::Failed => RunState {
                queue: s.queue,
                pos: s.pos,
                ledger: s.ledger,
                awaiting: false,
                halted: true,
            },
        }
    }
}

/// The first position at or after `pos` whose script has no ledger row.
pub open spec fn skip_recorded(queue: Seq<Seq<char>>, ledger: Seq<Seq<char>>, pos: int) -> int
    decreases queue.len() - pos,
{
    if 0 <= pos < queue.len() && ledger.contains(queue[pos]) {
        skip_recorded(queue, ledger, pos + 1)
    } else {
        pos
    }
}

/// One step of the engine.
pub open spec fn advance(s: RunState, e: Event) -> RunState {
    let t = settle(s, e);
    if t.halted {
        t
    } else {
        let p = skip_recorded(t.queue, t.ledger, t.pos);
        RunState { queue: t.queue, pos: p, ledger: t.ledger, awaiting: p < t.queue.len(), halted: false }
    }
}

/// Whether `action` is what the engine asks for in state `s`.
pub open spec fn announces(action: Action, s: RunState) -> bool {
    match action {
        Action::Apply(name) => s.awaiting && 0 <= s.pos < s.queue.len() && name@ == s.queue[s.pos],
        Action::Finished => !s.awaiting && !s.halted,
        Action::Halted => s.halted,
    }
}

/// Whether `a` is at or before `b` in the order of strings.
pub fn precedes(a: &str, b: &str) -> (r: bool)
    ensures
        r == lex_le(a@, b@),
{
    let x = chars_of(a);
    let y = chars_of(b);
    let mut i: usize = 0;
    proof {
        assert(a@.skip(0) =~= a@);
        assert(b@.skip(0) =~= b@);
    }
    while i < x.len() && i < y.len()
        invariant
            i <= x.len(),
            i <= y.len(),
            x@ == a@,
            y@ == b@,
            lex_le(a@, b@) == lex_le(a@.skip(i as int), b@.skip(i as int)),
        decreases x.len() - i,
    {
        if x[i] != y[i] {
            return x[i] < y[i];
        }
        proof {
            assert(a@.skip(i as int).drop_first() =~= a@.skip(i + 1));
            assert(b@.skip(i as int).drop_first() =~= b@.skip(i + 1));
        }
        i += 1;
    }
    i == x.len()
}

/// Of two names, one is at or before the other.
pub proof fn lemma_lex_total(a: Seq<char>, b: Seq<char>)
    ensures
        lex_le(a, b) || lex_le(b, a),
    decreases a.len(),
{
    if a.len() > 0 && b.len() > 0 && a[0] == b[0] {
        lemma_lex_total(a.drop_first(), b.drop_first());
    }
}

/// The order of names is transitive.
pub proof fn lemma_lex_transitive(a: Seq<char>, b: Seq<char>, c: Seq<char>)
    requires
        lex_le(a, b),
        lex_le(b, c),
    ensures
        lex_le(a, c),
    decreases a.len(),
{
    if a.len() > 0 && b.len() > 0 && c.len() > 0 && a[0] == b[0] && b[0] == c[0] {
        lemma_lex_transitive(a.drop_first(), b.drop_first(), c.drop_first());
    }
}

/// Two names that are each at or before the other are the same name.
pub proof fn lemma_lex_antisymmetric(a: Seq<char>, b: Seq<char>)
    requires
        lex_le(a, b),
        lex_le(b, a),
    ensures
        a == b,
    decreases a.len(),
{
    if a.len() > 0 && b.len() > 0 {
        lemma_lex_antisymmetric(a.drop_first(), b.drop_first());
        assert(a =~= seq![a[0]] + a.drop_first());
        assert(b =~= seq![b[0]] + b.drop_first());
    } else {
        assert(a =~= b);
    }
}

/// Sorting has one answer: two sorted sequences that hold the same names,
/// each as often, are the same sequence.
pub proof fn sorted_order_is_unique(a: Seq<Seq<char>>, b: Seq<Seq<char>>)
    requires
        sorted(a),
        sorted(b),
        a.to_multiset() == b.to_multiset(),
    ensures
        a == b,
    decreases a.len(),
{
    a.to_multiset_ensures();
    b.to_multiset_ensures();
    if a.len() == 0 {
        assert(a =~= b);
    } else {
        assert(a.contains(a[0]));
        assert(b.to_multiset().count(a[0]) > 0);
        assert(b.contains(a[0]));
        let j = choose|j: int| 0 <= j < b.len() && b[j] == a[0];
        assert(b.contains(b[0]));
        assert(a.to_multiset().count(b[0]) > 0);
        assert(a.contains(b[0]));
        let i = choose|i: int| 0 <= i < a.len() && a[i] == b[0];
        if j > 0 {
            assert(lex_le(b[0], b[j]));
        } else {
            assert(b[0] == a[0]);
        }
        if i > 0 {
            assert(lex_le(a[0], a[i]));
        } else {
            assert(a[0] == b[0]);
        }
        if a[0] != b[0] {
            lemma_lex_antisymmetric(a[0], b[0]);
        }
        assert(a.remove(0) =~= a.drop_first());
        assert(b.remove(0) =~= b.drop_first());
        assert(a.drop_first().to_multiset() =~= b.drop_first().to_multiset());
        assert forall|x: int, y: int| 0 <= x < y < a.drop_first().len() implies lex_le(
            #[trigger] a.drop_first()[x],
            #[trigger] a.drop_first()[y],
        ) by {
            assert(lex_le(a[x + 1], a[y + 1]));
        }
        assert forall|x: int, y: int| 0 <= x < y < b.drop_first().len() implies lex_le(
            #[trigger] b.drop_first()[x],
            #[trigger] b.drop_first()[y],
        ) by {
            assert(lex_le(b[x + 1], b[y + 1]));
        }
        sorted_order_is_unique(a.drop_first(), b.drop_first());
        assert(a =~= seq![a[0]] + a.drop_first());
        assert(b =~= seq![b[0]] + b.drop_first());
    }
}

/// Sorts file names: the same names, each as often as before, in the order
/// of strings.
pub fn sort_names(names: &Vec<String>) -> (r: Vec<String>)
    ensures
        sorted(views(r@)),
        views(r@).to_multiset() == views(names@).to_multiset(),
{
    let mut out: Vec<String> = Vec::new();
    let mut i: usize = 0;
    proof {
        assert(views(out@) =~= views(names@).subrange(0, 0));
    }
    while i < names.len()
        invariant
            i <= names.len(),
            sorted(views(out@)),
            views(out@).to_multiset() == views(names@).subrange(0, i as int).to_multiset(),
        decreases names.len() - i,
    {
        let name = names[i].clone();
        let mut p: usize = 0;
        while p < out.len() && precedes(out[p].as_str(), name.as_str())
            invariant
                p <= out.len(),
                forall|k: int| 0 <= k < p ==> lex_le(#[trigger] views(out@)[k], name@),
            decreases out.len() - p,
        {
            p += 1;
        }
        let ghost before = views(out@);
        let ghost taken = views(names@).subrange(0, i as int);
        out.insert(p, name);
        i += 1;
        proof {
            let x = names@[i - 1]@;
            let now = views(out@);
            assert(now =~= before.insert(p as int, x));
            assert forall|a: int, b: int| 0 <= a < b < now.len() implies lex_le(
                #[trigger] now[a],
                #[trigger] now[b],
            ) by {
                if b == p {
                    assert(now[a] == before[a]);
                } else if a == p {
                    assert(now[b] == before[b - 1]);
                    lemma_lex_total(before[p as int], x);
                    if b - 1 > p {
                        assert(lex_le(before[p as int], before[b - 1]));
                        lemma_lex_transitive(x, before[p as int], before[b - 1]);
                    }
                } else if a < p && b < p {
                    assert(now[a] == before[a] && now[b] == before[b]);
                } else if a < p && b > p {
                    assert(now[a] == before[a] && now[b] == before[b - 1]);
                    if a == b - 1 {
                    } else {
                        assert(lex_le(before[a], before[b - 1]));
                    }
                } else {
                    assert(now[a] == before[a - 1] && now[b] == before[b - 1]);
                    assert(lex_le(before[a - 1], before[b - 1]));
                }
            }
            vstd::seq_lib::to_multiset_insert(before, p as int, x);
            vstd::seq_lib::to_multiset_build(taken, x);
            assert(views(names@).subrange(0, i as int) =~= taken.push(x));
        }
    }
    proof {
        assert(views(names@).subrange(0, names@.len() as int) =~= views(names@));
    }
    out
}

/// The engine of one run.
pub struct Migrator {
    queue: Vec<String>,
    pos: usize,
    ledger: Ledger,
    awaiting: bool,
    halted: bool,
}

impl Migrator {
    /// Where the run stands.
    pub closed spec fn view(&self) -> RunState {
        RunState {
            queue: views(self.queue@),
            pos: self.pos as int,
            ledger: self.ledger@,
            awaiting: self.awaiting,
            halted: self.halted,
        }
    }

    /// The state is one that a run can be in.
    pub open spec fn wf(&self) -> bool {
        state_wf(self@)
    }

    /// Prepares a run over the directory entries `entries` against a store
    /// whose ledger is `ledger`: the `.sql` files among them, sorted by name.
    pub fn new(entries: &Vec<String>, ledger: Ledger) -> (m: Migrator)
        requires
            ledger.wf(),
        ensures
            m.wf(),
            m@ == start_state(m@.queue, ledger@),
            sorted(m@.queue),
            m@.queue.to_multiset() == sql_entries(views(entries@)).to_multiset(),
    {
        let mut queue: Vec<String> = Vec::new();
        let mut i: usize = 0;
        proof {
            assert(views(entries@).subrange(0, 0) =~= Seq::empty());
            assert(views(queue@) =~= Seq::empty());
        }
        while i < entries.len()
            invariant
                i <= entries.len(),
                views(queue@) == sql_entries(views(entries@).subrange(0, i as int)),
            decreases entries.len() - i,
        {
            let ghost before = views(queue@);
            if is_sql_file(entries[i].as_str()) {
                let name = entries[i].clone();
                queue.push(name);
            }
            i += 1;
            proof {
                let p = views(entries@).subrange(0, i as int);
                assert(p.drop_last() =~= views(entries@).subrange(0, i - 1));
                assert(p.last() == entries@[i - 1]@);
                if has_sql_extension(p.last()) {
                    assert(views(queue@) =~= before.push(p.last()));
                }
            }
        }
        proof {
            assert(views(entries@).subrange(0, entries@.len() as int) =~= views(entries@));
        }
        let queue = sort_names(&queue);
        Migrator { queue, pos: 0, ledger, awaiting: false, halted: false }
    }

    /// Takes in what happened to the script in hand, if there is one, and
    /// says what to do next.  Scripts that have a ledger row are passed over.
    pub fn step(&mut self, event: Event) -> (action: Action)
        requires
            old(self).wf(),
        ensures
            final(self).wf(),
            final(self)@ == advance(old(self)@, event),
            announces(action, final(self)@),
    {
        proof {
            assert(views(self.queue@).len() == self.queue@.len());
        }
        if self.awaiting {
            assert(self.pos < self.queue.len());
            match event {
                Event::Begin => {},
                Event::Applied => {
                    self.ledger.record(self.queue[self.pos].as_str());
                    self.pos += 1;
                    self.awaiting = false;
                },
                Event::Unreadable => {
                    self.pos += 1;
                    self.awaiting = false;
                },
                Event::Failed => {
                    self.halted = true;
                    self.awaiting = false;
                },
            }
        }
        if self.halted {
            return Action::Halted;
        }
        let ghost settled = self@;
        while self.pos < self.queue.len() && self.ledger.contains(self.queue[self.pos].as_str())
            invariant
                self.pos <= self.queue.len(),
                self.queue == old(self).queue,
                self@.queue == settled.queue,
                self@.ledger == settled.ledger,
                self.halted == settled.halted,
                settled.pos <= self.pos,
                skip_recorded(settled.queue, settled.ledger, settled.pos) == skip_recorded(
                    settled.queue,
                    settled.ledger,
                    self.pos as int,
                ),
            decreases self.queue.len() - self.pos,
        {
            self.pos += 1;
        }
        if self.pos < self.queue.len() {
            self.awaiting = true;
            Action::Apply(self.queue[self.pos].clone())
        } else {
            self.awaiting = false;
            Action::Finished
        }
    }

    /// The ledger as the run has it so far.
    pub fn ledger(&self) -> (r: &Ledger)
        ensures
            r@ == self@.ledger,
    {
        &self.ledger
    }

    /// Whether a script failed.
    pub fn is_halted(&self) -> (r: bool)
        ensures
            r == self@.halted,
    {
        self.halted
    }
}

/// The state after `n` more steps, each of which reports the script in hand
/// as applied.
pub open spec fn after_applied(s: RunState, n: nat) -> RunState
    decreases n,
{
    if n == 0 {
        s
    } else {
        advance(after_applied(s, (n - 1) as nat), Event::Applied)
    }
}

/// The state in which a run over `queue` against `ledger` ends when every
/// script that the engine hands out is applied.
pub open spec fn completed(queue: Seq<Seq<char>>, ledger: Seq<Seq<char>>) -> RunState {
    after_applied(advance(start_state(queue, ledger), Event::Begin), queue.len())
}

/// A run that is under way with every script so far applied: exactly the
/// scripts before `pos` were added to the rows of `ledger`.
pub open spec fn applied_so_far(s: RunState, queue: Seq<Seq<char>>, ledger: Seq<Seq<char>>) -> bool {
    &&& state_wf(s)
    &&& !s.halted
    &&& s.queue == queue
    &&& s.awaiting || s.pos == queue.len()
    &&& forall|x: Seq<char>|
        #[trigger] s.ledger.contains(x) <==> ledger.contains(x) || queue.subrange(0, s.pos).contains(x)
}

proof fn lemma_skip_recorded(queue: Seq<Seq<char>>, ledger: Seq<Seq<char>>, pos: int)
    requires
        0 <= pos <= queue.len(),
    ensures
        pos <= skip_recorded(queue, ledger, pos) <= queue.len(),
        forall|k: int|
            pos <= k < skip_recorded(queue, ledger, pos) ==> ledger.contains(#[trigger] queue[k]),
        skip_recorded(queue, ledger, pos) < queue.len() ==> !ledger.contains(
            queue[skip_recorded(queue, ledger, pos)],
        ),
    decreases queue.len() - pos,
{
    if pos < queue.len() && ledger.contains(queue[pos]) {
        lemma_skip_recorded(queue, ledger, pos + 1);
    }
}

proof fn lemma_skip_keeps(s: RunState, t: RunState, queue: Seq<Seq<char>>, ledger: Seq<Seq<char>>)
    requires
        0 <= t.pos <= queue.len(),
        t.queue == queue,
        !t.halted,
        t.ledger.no_duplicates(),
        forall|x: Seq<char>|
            #[trigger] t.ledger.contains(x) <==> ledger.contains(x) || queue.subrange(0, t.pos).contains(x),
        s == (RunState {
            queue,
            pos: skip_recorded(queue, t.ledger, t.pos),
            ledger: t.ledger,
            awaiting: skip_recorded(queue, t.ledger, t.pos) < queue.len(),
            halted: false,
        }),
    ensures
        applied_so_far(s, queue, ledger),
        s.pos >= t.pos,
{
    lemma_skip_recorded(queue, t.ledger, t.pos);
    assert forall|x: Seq<char>|
        #[trigger] s.ledger.contains(x) <==> ledger.contains(x) || queue.subrange(0, s.pos).contains(x) by {
        let a = queue.subrange(0, t.pos);
        let b = queue.subrange(0, s.pos);
        if a.contains(x) {
            let k = choose|k: int| 0 <= k < a.len() && a[k] == x;
            assert(b[k] == x);
        }
        if b.contains(x) {
            let k = choose|k: int| 0 <= k < b.len() && b[k] == x;
            assert(queue[k] == x);
            if k < t.pos {
                assert(a[k] == x);
                assert(a.contains(x));
            } else {
                assert(t.ledger.contains(queue[k]));
            }
            assert(t.ledger.contains(x));
        }
    }
}

proof fn lemma_applied_step(s: RunState, queue: Seq<Seq<char>>, ledger: Seq<Seq<char>>)
    requires
        applied_so_far(s, queue, ledger),
    ensures
        applied_so_far(advance(s, Event::Applied), queue, ledger),
        s.pos < queue.len() ==> advance(s, Event::Applied).pos > s.pos,
        s.pos == queue.len() ==> advance(s, Event::Applied) == s,
{
    let t = settle(s, Event::Applied);
    if s.awaiting {
        let name = queue[s.pos];
        assert(t.ledger.no_duplicates()) by {
            assert forall|i: int, j: int|
                0 <= i < t.ledger.len() && 0 <= j < t.ledger.len() && i != j implies t.ledger[i]
                != t.ledger[j] by {
                if i == s.ledger.len() {
                    assert(s.ledger[j] == t.ledger[j]);
                } else if j == s.ledger.len() {
                    assert(s.ledger[i] == t.ledger[i]);
                }
            }
        }
        assert forall|x: Seq<char>|
            #[trigger] t.ledger.contains(x) <==> ledger.contains(x) || queue.subrange(
                0,
                t.pos,
            ).contains(x) by {
            let a = queue.subrange(0, s.pos);
            let b = queue.subrange(0, t.pos);
            assert(b =~= a.push(name));
            if t.ledger.contains(x) {
                let k = choose|k: int| 0 <= k < t.ledger.len() && t.ledger[k] == x;
                if k < s.ledger.len() {
                    assert(s.ledger[k] == x);
                    assert(s.ledger.contains(x));
                    if a.contains(x) {
                        let m = choose|m: int| 0 <= m < a.len() && a[m] == x;
                        assert(b[m] == x);
                    }
                } else {
                    assert(b[s.pos] == x);
                }
            }
            if ledger.contains(x) || b.contains(x) {
                if b.contains(x) && !ledger.contains(x) {
                    let m = choose|m: int| 0 <= m < b.len() && b[m] == x;
                    if m < s.pos {
                        assert(a[m] == x);
                        assert(s.ledger.contains(x));
                    }
                }
                if x == name {
                    assert(t.ledger[s.ledger.len() as int] == x);
                } else {
                    assert(s.ledger.contains(x));
                    let k = choose|k: int| 0 <= k < s.ledger.len() && s.ledger[k] == x;
                    assert(t.ledger[k] == x);
                }
            }
        }
        lemma_skip_keeps(advance(s, Event::Applied), t, queue, ledger);
    } else {
        lemma_skip_recorded(queue, s.ledger, s.pos);
        assert(advance(s, Event::Applied) == s);
    }
}

proof fn lemma_applied_steps(s: RunState, queue: Seq<Seq<char>>, ledger: Seq<Seq<char>>, n: nat)
    requires
        applied_so_far(s, queue, ledger),
    ensures
        applied_so_far(after_applied(s, n), queue, ledger),
        after_applied(s, n).pos >= s.pos + n || after_applied(s, n).pos == queue.len(),
        s.pos == queue.len() ==> after_applied(s, n) == s,
    decreases n,
{
    if n > 0 {
        lemma_applied_steps(s, queue, ledger, (n - 1) as nat);
        lemma_applied_step(after_applied(s, (n - 1) as nat), queue, ledger);
    }
}

/// Running the engine twice applies every script once.  When each script
/// that a run hands out is applied, the run ends with one ledger row for
/// every row that was there and for every script, and none twice.  A second
/// run over the same scripts then hands out nothing and leaves the ledger as
/// it is.  On a store with no rows and `n` scripts of different names the
/// ledger has `n` rows after the first run and after the second.
pub proof fn second_run_applies_nothing(queue: Seq<Seq<char>>, ledger: Seq<Seq<char>>)
    requires
        ledger.no_duplicates(),
    ensures
        ({
            let first = completed(queue, ledger);
            let again = advance(start_state(queue, first.ledger), Event::Begin);
            &&& !first.halted && !first.awaiting && first.pos == queue.len()
            &&& first.ledger.no_duplicates()
            &&& forall|x: Seq<char>|
                #[trigger] first.ledger.contains(x) <==> ledger.contains(x) || queue.contains(x)
            &&& !again.halted && !again.awaiting && again.ledger == first.ledger
            &&& completed(queue, first.ledger) == again
            &&& ledger.len() == 0 && queue.no_duplicates() ==> first.ledger.len() == queue.len()
        }),
{
    let begun = advance(start_state(queue, ledger), Event::Begin);
    assert(queue.subrange(0, 0) =~= Seq::empty());
    lemma_skip_keeps(begun, start_state(queue, ledger), queue, ledger);
    lemma_applied_steps(begun, queue, ledger, queue.len());
    let first = completed(queue, ledger);
    assert(first.pos == queue.len());
    assert(queue.subrange(0, queue.len() as int) =~= queue);

    let again = advance(start_state(queue, first.ledger), Event::Begin);
    lemma_skip_recorded(queue, first.ledger, 0);
    let p = skip_recorded(queue, first.ledger, 0);
    if p < queue.len() {
        assert(queue.subrange(0, first.pos)[p] == queue[p]);
        assert(queue.subrange(0, first.pos).contains(queue[p]));
        assert(first.ledger.contains(queue[p]));
    }
    assert(again.pos == queue.len());
    assert(queue.subrange(0, 0) =~= Seq::empty());
    lemma_skip_keeps(again, start_state(queue, first.ledger), queue, first.ledger);
    lemma_applied_steps(again, queue, first.ledger, queue.len());

    if ledger.len() == 0 && queue.no_duplicates() {
        assert(first.ledger.to_set() =~= queue.to_set()) by {
            assert forall|x: Seq<char>| first.ledger.to_set().contains(x) <==> queue.to_set().contains(x) by {
                if ledger.contains(x) {
                    let k = choose|k: int| 0 <= k < ledger.len() && ledger[k] == x;
                }
            }
        }
        first.ledger.unique_seq_to_set();
        queue.unique_seq_to_set();
    }
}

proof fn lemma_in_order_steps(s: RunState, queue: Seq<Seq<char>>, n: nat)
    requires
        queue.no_duplicates(),
        state_wf(s),
        !s.halted,
        s.queue == queue,
        s.awaiting || s.pos == queue.len(),
        s.ledger == queue.subrange(0, s.pos),
    ensures
        after_applied(s, n).ledger == queue.subrange(0, after_applied(s, n).pos),
        after_applied(s, n).pos == if s.pos + n <= queue.len() {
            s.pos + n
        } else {
            queue.len() as int
        },
        state_wf(after_applied(s, n)),
        !after_applied(s, n).halted,
        after_applied(s, n).queue == queue,
        after_applied(s, n).awaiting || after_applied(s, n).pos == queue.len(),
    decreases n,
{
    if n > 0 {
        lemma_in_order_steps(s, queue, (n - 1) as nat);
        let t = after_applied(s, (n - 1) as nat);
        let u = settle(t, Event::Applied);
        if t.awaiting {
            assert(u.ledger =~= queue.subrange(0, u.pos));
            if u.pos < queue.len() {
                if u.ledger.contains(queue[u.pos]) {
                    let k = choose|k: int| 0 <= k < u.ledger.len() && u.ledger[k] == queue[u.pos];
                    assert(queue[k] == queue[u.pos]);
                }
            }
            assert(u.ledger.no_duplicates()) by {
                assert forall|i: int, j: int|
                    0 <= i < u.ledger.len() && 0 <= j < u.ledger.len() && i != j implies u.ledger[i]
                    != u.ledger[j] by {
                    assert(u.ledger[i] == queue[i] && u.ledger[j] == queue[j]);
                }
            }
        }
    }
}

/// Scripts are applied in the order of their names.  On a store with no
/// ledger rows, a run over scripts of different names in which every script
/// is applied hands them out one by one in the order of the queue, and the
/// ledger ends as the queue itself: the names in sorted order.
pub proof fn fresh_run_applies_in_order(queue: Seq<Seq<char>>, n: nat)
    requires
        queue.no_duplicates(),
    ensures
        ({
            let begun = advance(start_state(queue, Seq::empty()), Event::Begin);
            let s = after_applied(begun, n);
            &&& n < queue.len() ==> s.awaiting && s.pos == n && s.ledger == queue.subrange(0, n as int)
            &&& completed(queue, Seq::empty()).ledger == queue
            &&& sorted(queue) ==> sorted(completed(queue, Seq::empty()).ledger)
        }),
{
    let begun = advance(start_state(queue, Seq::empty()), Event::Begin);
    assert(Seq::<Seq<char>>::empty() =~= queue.subrange(0, 0));
    lemma_in_order_steps(begun, queue, n);
    lemma_in_order_steps(begun, queue, queue.len());
    assert(queue.subrange(0, queue.len() as int) =~= queue);
}

} // verus!
