//! The per-process status record: one line of space-separated fields, the
//! second of them a process name between parentheses.

use vstd::prelude::*;
use crate::text::{is_digit, number_at, read_number, chars_of};

verus! {

/// A snapshot of a process's state: the fields kept from a status record.
pub struct StatInfo {
    pub pid: i32,
    pub name: String,
    pub state: ProcessState,
    pub ppid: i32,
    pub pgrp: usize,
    pub sess_id: usize,
    pub tty_nr: usize,
    pub tpgid: usize,
    pub utime: usize,
    pub stime: usize,
    pub cutime: usize,
    pub cstime: usize,
    pub prio: usize,
    pub nice: usize,
    pub num_threads: usize,
    pub starttime: usize,
    pub vsize: usize,
    pub rss: usize,
    pub rsslim: usize,
}

#[derive(PartialEq, Eq, Structural, Clone, Copy, Debug)]
pub enum ProcessState {
    Running,
    Sleeping,
    UintSleep,
    Zombie,
    Stopped,
    TracingStop,
    Paging,
}

impl ProcessState {
    /// The state that a status record's one-letter code stands for.
    pub open spec fn spec_from_code(c: char) -> Option<ProcessState> {
        if c == 'R' { Some(ProcessState::Running) }
        else if c == 'S' { Some(ProcessState::Sleeping) }
        else if c == 'D' { Some(ProcessState::UintSleep) }
        else if c == 'Z' { Some(ProcessState::Zombie) }
        else if c == 'T' { Some(ProcessState::Stopped) }
        else if c == 't' { Some(ProcessState::TracingStop) }
        else if c == 'W' { Some(ProcessState::Paging) }
        else { None }
    }

    pub fn from_code(c: char) -> (r: Option<ProcessState>)
        ensures
            r == Self::spec_from_code(c),
    {
        if c == 'R' { Some(ProcessState::Running) }
        else if c == 'S' { Some(ProcessState::Sleeping) }
        else if c == 'D' { Some(ProcessState::UintSleep) }
        else if c == 'Z' { Some(ProcessState::Zombie) }
        else if c == 'T' { Some(ProcessState::Stopped) }
        else if c == 't' { Some(ProcessState::TracingStop) }
        else if c == 'W' { Some(ProcessState::Paging) }
        else { None }
    }
}

#[derive(Debug)]
pub struct ProcessStat {
    pub pid: i32,
    pub name: String,
    pub state: char,
    pub ppid: i32,
    pub pgrp: i32,
    pub session: i32,
    pub tty_nr: i32,
    pub tpgid: i32,
    pub utime: u64,
    pub stime: u64,
    pub cutime: u64,
    pub cstime: u64,
    pub priority: i32,
    pub nice: i32,
    pub num_threads: i32,
    pub starttime: u64,
    pub vsize: u64,
    pub rss: i64,
    pub rsslim: u64,
}

/// The field of a status record that could not be read.
#[derive(PartialEq, Eq, Structural, Clone, Copy, Debug)]
pub enum StatField {
    Pid,
    Name,
    State,
    Ppid,
    Pgrp,
    Session,
    TtyNr,
    Tpgid,
    Utime,
    Stime,
    Cutime,
    Cstime,
    Priority,
    Nice,
    NumThreads,
    Starttime,
    Vsize,
    Rss,
    Rsslim,
}

#[derive(PartialEq, Eq, Structural, Clone, Copy, Debug)]
pub struct ParseError {
    pub field: StatField,
}

pub open spec fn i32_max() -> nat {
    0x7fff_ffff
}

pub open spec fn i64_max() -> nat {
    0x7fff_ffff_ffff_ffff
}

pub open spec fn u64_max() -> nat {
    0xffff_ffff_ffff_ffff
}

/// How many numeric fields follow the state code.
pub open spec fn numeric_field_count() -> nat {
    16
}

/// The numeric fields after the state code, in record order.
pub open spec fn numeric_field(k: int) -> StatField {
    if k == 0 { StatField::Ppid }
    else if k == 1 { StatField::Pgrp }
    else if k == 2 { StatField::Session }
    else if k == 3 { StatField::TtyNr }
    else if k == 4 { StatField::Tpgid }
    else if k == 5 { StatField::Utime }
    else if k == 6 { StatField::Stime }
    else if k == 7 { StatField::Cutime }
    else if k == 8 { StatField::Cstime }
    else if k == 9 { StatField::Priority }
    else if k == 10 { StatField::Nice }
    else if k == 11 { StatField::NumThreads }
    else if k == 12 { StatField::Starttime }
    else if k == 13 { StatField::Vsize }
    else if k == 14 { StatField::Rss }
    else { StatField::Rsslim }
}

/// The largest value that the `k`-th numeric field's type holds.
pub open spec fn numeric_field_max(k: int) -> nat {
    if k <= 4 { i32_max() }
    else if k <= 8 { u64_max() }
    else if k <= 11 { i32_max() }
    else if k <= 13 { u64_max() }
    else if k == 14 { i64_max() }
    else { u64_max() }
}

/// The position of the last `c` in `s` before `n`, or -1.
pub open spec fn last_index_of(s: Seq<char>, c: char, n: int) -> int
    decreases n,
{
    if n <= 0 {
        -1
    } else if s[n - 1] == c {
        n - 1
    } else {
        last_index_of(s, c, n - 1)
    }
}

/// The first `k` numeric fields, each after one space, starting at `p`: their
/// values and the position after the last; or the index of the one that
/// fails.
pub open spec fn numeric_fields(s: Seq<char>, p: int, k: nat) -> Result<(Seq<nat>, int), nat>
    decreases k,
{
    if k == 0 {
        Ok((Seq::empty(), p))
    } else {
        match numeric_fields(s, p, (k - 1) as nat) {
            Err(f) => Err(f),
            Ok((vals, q)) => {
                if 0 <= q < s.len() && s[q] == ' ' {
                    match number_at(s, q + 1, numeric_field_max(k - 1)) {
                        Some((v, e)) => Ok((vals.push(v), e)),
                        None => Err((k - 1) as nat),
                    }
                } else {
                    Err((k - 1) as nat)
                }
            },
        }
    }
}

/// What a status record holds, field by field.
pub struct StatRecord {
    pub pid: nat,
    pub name: Seq<char>,
    pub state: char,
    pub values: Seq<nat>,
}

/// A status record: the pid, a space, the name between `(` and the last `)`
/// of the text, a space, the state code, then the numeric fields, each after
/// one space. What follows the last field is not read.
pub open spec fn stat_record(s: Seq<char>) -> Result<StatRecord, StatField> {
    match number_at(s, 0, i32_max()) {
        None => Err(StatField::Pid),
        Some((pid, e)) => {
            let close = last_index_of(s, ')', s.len() as int);
            if !(e < close && close - e > 1 && s[e] == ' ' && s[e + 1] == '(') {
                Err(StatField::Name)
            } else if !(close + 2 < s.len() && s[close + 1] == ' ') {
                Err(StatField::State)
            } else {
                match numeric_fields(s, close + 3, numeric_field_count()) {
                    Err(k) => Err(numeric_field(k as int)),
                    Ok((vals, _)) => Ok(
                        StatRecord {
                            pid,
                            name: s.subrange(e + 2, close),
                            state: s[close + 2],
                            values: vals,
                        },
                    ),
                }
            }
        },
    }
}

impl ProcessStat {
    /// The snapshot holds exactly what the record `r` holds.
    pub open spec fn holds(&self, r: StatRecord) -> bool {
        &&& r.values.len() == numeric_field_count()
        &&& self.pid as int == r.pid
        &&& self.name@ == r.name
        &&& self.state == r.state
        &&& self.ppid as int == r.values[0]
        &&& self.pgrp as int == r.values[1]
        &&& self.session as int == r.values[2]
        &&& self.tty_nr as int == r.values[3]
        &&& self.tpgid as int == r.values[4]
        &&& self.utime as int == r.values[5]
        &&& self.stime as int == r.values[6]
        &&& self.cutime as int == r.values[7]
        &&& self.cstime as int == r.values[8]
        &&& self.priority as int == r.values[9]
        &&& self.nice as int == r.values[10]
        &&& self.num_threads as int == r.values[11]
        &&& self.starttime as int == r.values[12]
        &&& self.vsize as int == r.values[13]
        &&& self.rss as int == r.values[14]
        &&& self.rsslim as int == r.values[15]
    }

    /// Two snapshots hold the same values, field by field.
    pub open spec fn same_fields(&self, o: &ProcessStat) -> bool {
        &&& self.pid == o.pid
        &&& self.name@ == o.name@
        &&& self.state == o.state
        &&& self.ppid == o.ppid
        &&& self.pgrp == o.pgrp
        &&& self.session == o.session
        &&& self.tty_nr == o.tty_nr
        &&& self.tpgid == o.tpgid
        &&& self.utime == o.utime
        &&& self.stime == o.stime
        &&& self.cutime == o.cutime
        &&& self.cstime == o.cstime
        &&& self.priority == o.priority
        &&& self.nice == o.nice
        &&& self.num_threads == o.num_threads
        &&& self.starttime == o.starttime
        &&& self.vsize == o.vsize
        &&& self.rss == o.rss
        &&& self.rsslim == o.rsslim
    }
}

/// What `parse_stat` returns for the text `s`.
pub open spec fn parse_stat_result(s: Seq<char>, r: Result<ProcessStat, ParseError>) -> bool {
    match stat_record(s) {
        Ok(rec) => r is Ok && r->Ok_0.holds(rec),
        Err(f) => r == Err::<ProcessStat, ParseError>(ParseError { field: f }),
    }
}

/// Parsing the same text twice gives snapshots equal field by field, or the
/// same error.
pub proof fn lemma_parse_stat_idempotent(
    s: Seq<char>,
    r1: Result<ProcessStat, ParseError>,
    r2: Result<ProcessStat, ParseError>,
)
    requires
        parse_stat_result(s, r1),
        parse_stat_result(s, r2),
    ensures
        r1 is Ok <==> r2 is Ok,
        r1 is Ok ==> r1->Ok_0.same_fields(&r2->Ok_0),
        r1 is Err ==> r1 == r2,
{
}

fn numeric_field_of(k: usize) -> (f: StatField)
    ensures
        f == numeric_field(k as int),
{
    if k == 0 { StatField::Ppid }
    else if k == 1 { StatField::Pgrp }
    else if k == 2 { StatField::Session }
    else if k == 3 { StatField::TtyNr }
    else if k == 4 { StatField::Tpgid }
    else if k == 5 { StatField::Utime }
    else if k == 6 { StatField::Stime }
    else if k == 7 { StatField::Cutime }
    else if k == 8 { StatField::Cstime }
    else if k == 9 { StatField::Priority }
    else if k == 10 { StatField::Nice }
    else if k == 11 { StatField::NumThreads }
    else if k == 12 { StatField::Starttime }
    else if k == 13 { StatField::Vsize }
    else if k == 14 { StatField::Rss }
    else { StatField::Rsslim }
}

fn numeric_field_max_of(k: usize) -> (m: u64)
    ensures
        m as nat == numeric_field_max(k as int),
{
    if k <= 4 { 0x7fff_ffff }
    else if k <= 8 { 0xffff_ffff_ffff_ffff }
    else if k <= 11 { 0x7fff_ffff }
    else if k <= 13 { 0xffff_ffff_ffff_ffff }
    else if k == 14 { 0x7fff_ffff_ffff_ffff }
    else { 0xffff_ffff_ffff_ffff }
}

/// The position of the last `)` in `s`, if there is one.
fn last_close_paren(s: &Vec<char>) -> (r: Option<usize>)
    ensures
        match r {
            Some(i) => i as int == last_index_of(s@, ')', s@.len() as int),
            None => last_index_of(s@, ')', s@.len() as int) == -1,
        },
{
    let mut n: usize = s.len();
    while n > 0
        invariant
            n <= s@.len(),
            last_index_of(s@, ')', s@.len() as int) == last_index_of(s@, ')', n as int),
        decreases n,
    {
        if s[n - 1] == ')' {
            return Some(n - 1);
        }
        n = n - 1;
    }
    None
}

proof fn lemma_last_index_of_bounds(s: Seq<char>, c: char, n: int)
    ensures
        -1 <= last_index_of(s, c, n) < n || (n <= 0 && last_index_of(s, c, n) == -1),
        last_index_of(s, c, n) >= 0 ==> s[last_index_of(s, c, n)] == c,
    decreases n,
{
    if n > 0 && s[n - 1] != c {
        lemma_last_index_of_bounds(s, c, n - 1);
    }
}

proof fn lemma_numeric_fields_bounds(s: Seq<char>, p: int, k: nat)
    requires
        0 <= p <= s.len(),
    ensures
        numeric_fields(s, p, k) matches Ok((vals, e)) ==> {
            &&& vals.len() == k
            &&& p <= e <= s.len()
            &&& forall|j: int| 0 <= j < k ==> #[trigger] vals[j] <= numeric_field_max(j)
        },
        numeric_fields(s, p, k) matches Err(f) ==> f < k,
    decreases k,
{
    if k > 0 {
        lemma_numeric_fields_bounds(s, p, (k - 1) as nat);
        if let Ok((vals, q)) = numeric_fields(s, p, (k - 1) as nat) {
            if 0 <= q < s.len() && s[q] == ' ' {
                crate::text::lemma_number_at_bounds(s, q + 1, numeric_field_max(k - 1));
            }
        }
    }
}

/// Once a field fails, reading more fields fails at that same one.
proof fn lemma_numeric_fields_fail(s: Seq<char>, p: int, k: nat, n: nat)
    requires
        k < n,
        numeric_fields(s, p, (k + 1) as nat) == Err::<(Seq<nat>, int), nat>(k),
    ensures
        numeric_fields(s, p, n) == Err::<(Seq<nat>, int), nat>(k),
    decreases n,
{
    if n > k + 1 {
        lemma_numeric_fields_fail(s, p, k, (n - 1) as nat);
    }
}

/// Reads the numeric fields that follow the state code, from position `p`.
fn read_numeric_fields(s: &Vec<char>, p: usize) -> (r: Result<Vec<u64>, usize>)
    requires
        p <= s@.len(),
    ensures
        match numeric_fields(s@, p as int, numeric_field_count()) {
            Ok((vals, _)) => r is Ok && r->Ok_0@.len() == vals.len() && vals.len() == 16
                && forall|k: int|
                0 <= k < vals.len() ==> r->Ok_0@[k] as nat == #[trigger] vals[k]
                    && vals[k] <= numeric_field_max(k),
            Err(k) => r == Err::<Vec<u64>, usize>(k as usize),
        },
{
    let mut vals: Vec<u64> = Vec::new();
    let mut q: usize = p;
    let mut k: usize = 0;
    proof {
        lemma_numeric_fields_bounds(s@, p as int, 16);
    }
    while k < 16
        invariant
            k <= 16,
            p <= s@.len(),
            q <= s@.len(),
            numeric_fields(s@, p as int, k as nat) matches Ok((vs, e)) && e == q as int
                && vals@.len() == vs.len() && forall|j: int|
                0 <= j < vs.len() ==> vals@[j] as nat == #[trigger] vs[j],
        decreases 16 - k,
    {
        proof {
            reveal_with_fuel(numeric_fields, 2);
        }
        proof {
            lemma_numeric_fields_bounds(s@, p as int, k as nat);
        }
        if q < s.len() && s[q] == ' ' {
            match read_number(s, q + 1, numeric_field_max_of(k)) {
                Some((v, e)) => {
                    proof {
                        crate::text::lemma_number_at_bounds(
                            s@,
                            q + 1,
                            numeric_field_max(k as int),
                        );
                        let ghost vs = numeric_fields(s@, p as int, k as nat)->Ok_0.0;
                        assert(numeric_fields(s@, p as int, (k + 1) as nat) == Ok::<
                            (Seq<nat>, int),
                            nat,
                        >((vs.push(v as nat), e as int)));
                    }
                    vals.push(v);
                    q = e;
                },
                None => {
                    proof {
                        lemma_numeric_fields_fail(s@, p as int, k as nat, 16);
                    }
                    return Err(k);
                },
            }
        } else {
            proof {
                lemma_numeric_fields_fail(s@, p as int, k as nat, 16);
            }
            return Err(k);
        }
        k = k + 1;
    }
    Ok(vals)
}

/// Parses one status record. Fields are read in order; the first one that is
/// missing, malformed, or too large for its type is named in the error.
pub fn parse_stat(input: &str) -> (r: Result<ProcessStat, ParseError>)
    ensures
        parse_stat_result(input@, r),
{
    let s = chars_of(input);
    let (pid, e) = match read_number(&s, 0, 0x7fff_ffff) {
        None => {
            return Err(ParseError { field: StatField::Pid });
        },
        Some(x) => x,
    };
    proof {
        crate::text::lemma_number_at_bounds(s@, 0, i32_max());
        lemma_last_index_of_bounds(s@, ')', s@.len() as int);
    }
    let close = match last_close_paren(&s) {
        None => {
            return Err(ParseError { field: StatField::Name });
        },
        Some(c) => c,
    };
    if !(e < close && close - e > 1 && s[e] == ' ' && s[e + 1] == '(') {
        return Err(ParseError { field: StatField::Name });
    }
    if !(s.len() - close > 2 && s[close + 1] == ' ') {
        return Err(ParseError { field: StatField::State });
    }
    let state = s[close + 2];
    proof {
        lemma_numeric_fields_bounds(s@, close + 3, 16);
    }
    let vals = match read_numeric_fields(&s, close + 3) {
        Err(k) => {
            return Err(ParseError { field: numeric_field_of(k) });
        },
        Ok(v) => v,
    };
    let name = crate::text::string_of(&s, e + 2, close);
    Ok(
        ProcessStat {
            pid: pid as i32,
            name,
            state,
            ppid: vals[0] as i32,
            pgrp: vals[1] as i32,
            session: vals[2] as i32,
            tty_nr: vals[3] as i32,
            tpgid: vals[4] as i32,
            utime: vals[5],
            stime: vals[6],
            cutime: vals[7],
            cstime: vals[8],
            priority: vals[9] as i32,
            nice: vals[10] as i32,
            num_threads: vals[11] as i32,
            starttime: vals[12],
            vsize: vals[13],
            rss: vals[14] as i64,
            rsslim: vals[15],
        },
    )
}

} // verus!
