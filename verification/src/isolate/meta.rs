//! The supervisor's report: a text of `key:value` lines.
//!
//! `lenient_entries` and `first_malformed` say what a report holds; the
//! parsers compute exactly that, for every text.

use vstd::prelude::*;
use crate::decimal::{parse_i32, parse_millis, parse_signed, parse_u64, parse_unsigned};
use crate::text::{
    find_char, first_index_of, is_space, leading_spaces, lemma_first_index_of_is, lemma_trim_blank,
    lemma_trim_bounds, lemma_trim_is, line_at, lines_of, pair_texts, str_eq, string_of, to_chars,
    trailing_spaces, trim, trim_range,
};
use crate::types::{
    ExecutionResult, ExecutionResultView, ExecutionStatus, LimitExceeded, Seconds,
};

verus! {

/// What one line of a report holds.
pub enum MetaLine {
    /// Nothing but whitespace.
    Blank,
    /// A key and a value, both trimmed, the key not empty.
    Entry(Seq<char>, Seq<char>),
    /// A colon with nothing but whitespace before it.
    EmptyKey,
    /// No colon at all.
    NoColon,
}

/// Reads one line. The first colon separates key and value: later colons
/// belong to the value.
pub open spec fn parse_line(line: Seq<char>) -> MetaLine {
    let t = trim(line);
    let colon = first_index_of(t, ':');
    if t.len() == 0 {
        MetaLine::Blank
    } else if !(0 <= colon < t.len()) {
        MetaLine::NoColon
    } else if trim(t.take(colon)).len() == 0 {
        MetaLine::EmptyKey
    } else {
        MetaLine::Entry(trim(t.take(colon)), trim(t.skip(colon + 1)))
    }
}

/// The entries of the given lines, a later line overriding an earlier one
/// with the same key. Lines that are no entry are passed over.
pub open spec fn lenient_entries(lines: Seq<Seq<char>>) -> Map<Seq<char>, Seq<char>>
    decreases lines.len(),
{
    if lines.len() == 0 {
        Map::empty()
    } else {
        let before = lenient_entries(lines.drop_last());
        match parse_line(lines.last()) {
            MetaLine::Entry(key, value) => before.insert(key, value),
            _ => before,
        }
    }
}

/// The line is neither blank nor an entry.
pub open spec fn malformed(line: Seq<char>) -> bool {
    parse_line(line) is EmptyKey || parse_line(line) is NoColon
}

/// Position of the first malformed line, or `lines.len()`.
pub open spec fn first_malformed(lines: Seq<Seq<char>>) -> int
    decreases lines.len(),
{
    if lines.len() == 0 || malformed(lines[0]) {
        0
    } else {
        1 + first_malformed(lines.drop_first())
    }
}

pub proof fn lemma_first_malformed_is(lines: Seq<Seq<char>>, n: int)
    requires
        0 <= n <= lines.len(),
        forall|i: int| 0 <= i < n ==> !malformed(#[trigger] lines[i]),
        n < lines.len() ==> malformed(lines[n]),
    ensures
        first_malformed(lines) == n,
    decreases n,
{
    if n > 0 {
        let t = lines.drop_first();
        assert forall|i: int| 0 <= i < n - 1 implies !malformed(#[trigger] t[i]) by {
            assert(t[i] == lines[i + 1]);
        }
        lemma_first_malformed_is(t, n - 1);
    }
}

/// The map that a list of pairs stands for: a later pair overrides an
/// earlier one with the same key.
pub open spec fn pairs_map(pairs: Seq<(Seq<char>, Seq<char>)>) -> Map<Seq<char>, Seq<char>>
    decreases pairs.len(),
{
    if pairs.len() == 0 {
        Map::empty()
    } else {
        pairs_map(pairs.drop_last()).insert(pairs.last().0, pairs.last().1)
    }
}

/// The value under `key`, if there is one.
pub open spec fn lookup(m: Map<Seq<char>, Seq<char>>, key: Seq<char>) -> Option<Seq<char>> {
    if m.contains_key(key) {
        Some(m[key])
    } else {
        None
    }
}

/// A key is in the map of a list of pairs exactly where some pair has it,
/// and its value is that of the last such pair.
pub proof fn lemma_pairs_map(pairs: Seq<(Seq<char>, Seq<char>)>, key: Seq<char>, n: int)
    requires
        0 <= n <= pairs.len(),
        forall|j: int| n <= j < pairs.len() ==> (#[trigger] pairs[j]).0 != key,
    ensures
        n == 0 ==> !pairs_map(pairs).contains_key(key),
        n > 0 && pairs[n - 1].0 == key ==> lookup(pairs_map(pairs), key) == Some(pairs[n - 1].1),
    decreases pairs.len() - n,
{
    if pairs.len() > n {
        let t = pairs.drop_last();
        assert forall|j: int| n <= j < t.len() implies (#[trigger] t[j]).0 != key by {
            assert(t[j] == pairs[j]);
        }
        lemma_pairs_map(t, key, n);
        assert(pairs.last().0 != key);
        if n > 0 {
            assert(t[n - 1] == pairs[n - 1]);
        }
    } else if n == 0 {
    } else {
        assert(pairs.last() == pairs[n - 1]);
    }
}

/// Why a report could not be read strictly.
#[derive(Debug, Clone, PartialEq, Eq)]
pub struct MetaParseError {
    /// Number of the offending line, counted from 1.
    pub line_number: usize,
    /// The offending line as it stands in the report.
    pub line: String,
    /// What is wrong with it.
    pub message: String,
}

/// A parsed report.
#[derive(Debug, Clone)]
pub struct MetaFile {
    entries: Vec<(String, String)>,
}

impl View for MetaFile {
    type V = Map<Seq<char>, Seq<char>>;

    closed spec fn view(&self) -> Map<Seq<char>, Seq<char>> {
        pairs_map(pair_texts(self.entries@))
    }
}

/// One line as the parser found it.
enum ParsedLine {
    Blank,
    Entry(String, String),
    EmptyKey,
    NoColon,
}

impl ParsedLine {
    spec fn line(self) -> MetaLine {
        match self {
            ParsedLine::Blank => MetaLine::Blank,
            ParsedLine::Entry(k, v) => MetaLine::Entry(k@, v@),
            ParsedLine::EmptyKey => MetaLine::EmptyKey,
            ParsedLine::NoColon => MetaLine::NoColon,
        }
    }
}

fn parse_line_at(v: &Vec<char>, from: usize, to: usize) -> (r: ParsedLine)
    requires
        from <= to <= v.len(),
    ensures
        r.line() == parse_line(v@.subrange(from as int, to as int)),
{
    let (a, b) = trim_range(v, from, to);
    let ghost t = v@.subrange(a as int, b as int);
    if a == b {
        return ParsedLine::Blank;
    }
    let colon = find_char(v, a, b, ':');
    if colon == b {
        return ParsedLine::NoColon;
    }
    proof {
        assert(t.take(colon - a) =~= v@.subrange(a as int, colon as int));
        assert(t.skip(colon - a + 1) =~= v@.subrange(colon + 1, b as int));
    }
    let (ka, kb) = trim_range(v, a, colon);
    if ka == kb {
        return ParsedLine::EmptyKey;
    }
    let (va, vb) = trim_range(v, colon + 1, b);
    ParsedLine::Entry(string_of(v, ka, kb), string_of(v, va, vb))
}

impl MetaFile {
    /// What a report holds when malformed lines are passed over.
    pub open spec fn lenient(content: Seq<char>) -> Map<Seq<char>, Seq<char>> {
        lenient_entries(lines_of(content))
    }

    /// A report without entries.
    pub fn empty() -> (m: Self)
        ensures
            m@ == Map::<Seq<char>, Seq<char>>::empty(),
    {
        MetaFile { entries: Vec::new() }
    }

    fn insert(&mut self, key: String, value: String)
        ensures
            final(self)@ == old(self)@.insert(key@, value@),
    {
        self.entries.push((key, value));
        assert(pair_texts(self.entries@).drop_last() =~= pair_texts(old(self).entries@));
    }

    /// Reads a report, passing over every line that is not an entry.
    pub fn parse(content: &str) -> (m: Self)
        ensures
            m@ == Self::lenient(content@),
    {
        let v = to_chars(content);
        let mut meta = MetaFile::empty();
        let mut pos: usize = 0;
        let ghost mut done: Seq<Seq<char>> = Seq::empty();
        proof {
            assert(v@.skip(0) =~= v@);
            assert(done + lines_of(v@) =~= lines_of(v@));
        }
        while pos < v.len()
            invariant
                pos <= v.len(),
                done + lines_of(v@.skip(pos as int)) == lines_of(v@),
                meta@ == lenient_entries(done),
            decreases v.len() - pos,
        {
            let (end, next) = line_at(&v, pos);
            let ghost line = v@.subrange(pos as int, end as int);
            proof {
                crate::text::lemma_add_assoc(done, seq![line], lines_of(v@.skip(next as int)));
                assert(done + seq![line] =~= done.push(line));
                assert(done.push(line).drop_last() =~= done);
            }
            match parse_line_at(&v, pos, end) {
                ParsedLine::Entry(key, value) => {
                    meta.insert(key, value);
                },
                _ => {},
            }
            proof {
                done = done.push(line);
            }
            pos = next;
        }
        proof {
            assert(v@.skip(v.len() as int) =~= Seq::<char>::empty());
            assert(done + Seq::<Seq<char>>::empty() =~= done);
        }
        meta
    }

    /// Reads a report, failing at the first line that is neither blank nor
    /// an entry. The error names that line, counted from 1, and says whether
    /// its colon or its key is missing.
    pub fn try_parse(content: &str) -> (r: Result<Self, MetaParseError>)
        ensures
            ({
                let lines = lines_of(content@);
                let bad = first_malformed(lines);
                match r {
                    Ok(m) => bad == lines.len() && m@ == Self::lenient(content@),
                    Err(e) => {
                        &&& 0 <= bad < lines.len()
                        &&& e.line_number == bad + 1
                        &&& e.line@ == lines[bad]
                        &&& e.message@ == (if parse_line(lines[bad]) is NoColon {
                            "missing colon separator"@
                        } else {
                            "empty key before colon"@
                        })
                    },
                }
            }),
    {
        let v = to_chars(content);
        let mut meta = MetaFile::empty();
        let mut pos: usize = 0;
        let mut count: usize = 0;
        let ghost mut done: Seq<Seq<char>> = Seq::empty();
        proof {
            assert(v@.skip(0) =~= v@);
            assert(done + lines_of(v@) =~= lines_of(v@));
        }
        while pos < v.len()
            invariant
                pos <= v.len(),
                v@ == content@,
                count <= pos,
                count == done.len(),
                done + lines_of(v@.skip(pos as int)) == lines_of(v@),
                meta@ == lenient_entries(done),
                forall|i: int| 0 <= i < done.len() ==> !malformed(#[trigger] done[i]),
            decreases v.len() - pos,
        {
            let (end, next) = line_at(&v, pos);
            let ghost line = v@.subrange(pos as int, end as int);
            let ghost lines = lines_of(v@);
            proof {
                crate::text::lemma_add_assoc(done, seq![line], lines_of(v@.skip(next as int)));
                assert(done + seq![line] =~= done.push(line));
                assert(done.push(line).drop_last() =~= done);
                assert(lines[done.len() as int] == line);
                assert forall|i: int| 0 <= i < done.len() implies !malformed(
                    #[trigger] lines[i],
                ) by {
                    assert(lines[i] == done[i]);
                }
            }
            match parse_line_at(&v, pos, end) {
                ParsedLine::Entry(key, value) => {
                    meta.insert(key, value);
                },
                ParsedLine::Blank => {},
                ParsedLine::EmptyKey => {
                    proof {
                        lemma_first_malformed_is(lines, done.len() as int);
                    }
                    return Err(
                        MetaParseError {
                            line_number: count + 1,
                            line: string_of(&v, pos, end),
                            message: "empty key before colon".to_owned(),
                        },
                    );
                },
                ParsedLine::NoColon => {
                    proof {
                        lemma_first_malformed_is(lines, done.len() as int);
                    }
                    return Err(
                        MetaParseError {
                            line_number: count + 1,
                            line: string_of(&v, pos, end),
                            message: "missing colon separator".to_owned(),
                        },
                    );
                },
            }
            proof {
                done = done.push(line);
            }
            count += 1;
            pos = next;
        }
        proof {
            assert(v@.skip(v.len() as int) =~= Seq::<char>::empty());
            assert(done + Seq::<Seq<char>>::empty() =~= done);
            lemma_first_malformed_is(done, done.len() as int);
        }
        Ok(meta)
    }

    /// The value under `key`.
    pub fn get(&self, key: &str) -> (r: Option<&str>)
        ensures
            match r {
                Some(v) => Some(v@),
                None => None,
            } == lookup(self@, key@),
    {
        let ghost pairs = pair_texts(self.entries@);
        let mut i: usize = self.entries.len();
        while i > 0 && !str_eq(self.entries[i - 1].0.as_str(), key)
            invariant
                i <= self.entries.len(),
                pairs == pair_texts(self.entries@),
                forall|j: int| i <= j < pairs.len() ==> (#[trigger] pairs[j]).0 != key@,
            decreases i,
        {
            i -= 1;
        }
        proof {
            lemma_pairs_map(pairs, key@, i as int);
        }
        if i > 0 {
            Some(self.entries[i - 1].1.as_str())
        } else {
            None
        }
    }
}


/// The unsigned number under `key`, where there is a value and it reads as
/// one.
pub open spec fn unsigned_at(m: Map<Seq<char>, Seq<char>>, key: Seq<char>) -> Option<u64> {
    match lookup(m, key) {
        Some(v) => match parse_unsigned(v, u64::MAX as nat) {
            Some(n) => Some(n as u64),
            None => None,
        },
        None => None,
    }
}

/// The signed number under `key`, where there is a value and it reads as
/// one.
pub open spec fn signed_at(m: Map<Seq<char>, Seq<char>>, key: Seq<char>) -> Option<i32> {
    match lookup(m, key) {
        Some(v) => match parse_signed(v, i32::MIN as int, i32::MAX as int) {
            Some(n) => Some(n as i32),
            None => None,
        },
        None => None,
    }
}

/// The duration under `key`, where there is a value and it reads as one.
pub open spec fn seconds_at(m: Map<Seq<char>, Seq<char>>, key: Seq<char>) -> Option<Seconds> {
    match lookup(m, key) {
        Some(v) => match parse_millis(v) {
            Some(n) => Some(Seconds { millis: n as u64 }),
            None => None,
        },
        None => None,
    }
}

/// The duration under `key`, or zero.
pub open spec fn seconds_or_zero(m: Map<Seq<char>, Seq<char>>, key: Seq<char>) -> Seconds {
    match seconds_at(m, key) {
        Some(s) => s,
        None => Seconds { millis: 0 },
    }
}

/// The status of the run: that of the `status` entry, and a normal exit
/// where there is none.
pub open spec fn status_of(m: Map<Seq<char>, Seq<char>>) -> ExecutionStatus {
    match lookup(m, "status"@) {
        Some(code) => ExecutionStatus::of_code(code),
        None => ExecutionStatus::Okay,
    }
}

/// Peak memory: the control group's where reported, else the resident
/// set's, else zero.
pub open spec fn memory_of(m: Map<Seq<char>, Seq<char>>) -> u64 {
    match unsigned_at(m, "cg-mem"@) {
        Some(n) => n,
        None => match unsigned_at(m, "max-rss"@) {
            Some(n) => n,
            None => 0,
        },
    }
}

/// The bound that the run went over: the one the message names; failing
/// that, CPU time where the status is a timeout; else none.
pub open spec fn limit_of(m: Map<Seq<char>, Seq<char>>) -> LimitExceeded {
    let named = LimitExceeded::of_message(lookup(m, "message"@));
    if named != LimitExceeded::NotExceeded {
        named
    } else if status_of(m) == ExecutionStatus::TimeLimitExceeded {
        LimitExceeded::Time
    } else {
        LimitExceeded::NotExceeded
    }
}

/// The execution result that a report amounts to, with no output attached.
pub open spec fn report_of(m: Map<Seq<char>, Seq<char>>) -> ExecutionResultView {
    ExecutionResultView {
        status: status_of(m),
        limit_exceeded: limit_of(m),
        time: seconds_or_zero(m, "time"@),
        wall_time: seconds_or_zero(m, "time-wall"@),
        memory: memory_of(m),
        cg_memory: unsigned_at(m, "cg-mem"@),
        max_rss: unsigned_at(m, "max-rss"@),
        exit_code: signed_at(m, "exitcode"@),
        signal: signed_at(m, "exitsig"@),
        message: lookup(m, "message"@),
        stdout: None,
        stderr: None,
    }
}

impl MetaFile {
    /// The value under `key` as a signed number.
    pub fn get_i32(&self, key: &str) -> (r: Option<i32>)
        ensures
            r == signed_at(self@, key@),
    {
        match self.get(key) {
            Some(text) => {
                let v = to_chars(text);
                assert(v@.subrange(0, v.len() as int) =~= v@);
                parse_i32(&v, 0, v.len())
            },
            None => None,
        }
    }

    /// The value under `key` as an unsigned number.
    pub fn get_u64(&self, key: &str) -> (r: Option<u64>)
        ensures
            r == unsigned_at(self@, key@),
    {
        match self.get(key) {
            Some(text) => {
                let v = to_chars(text);
                assert(v@.subrange(0, v.len() as int) =~= v@);
                parse_u64(&v, 0, v.len())
            },
            None => None,
        }
    }

    /// The value under `key` as a duration in seconds.
    pub fn get_seconds(&self, key: &str) -> (r: Option<Seconds>)
        ensures
            r == seconds_at(self@, key@),
    {
        match self.get(key) {
            Some(text) => Seconds::parse(text),
            None => None,
        }
    }

    /// How the run ended.
    pub fn status(&self) -> (r: ExecutionStatus)
        ensures
            r == status_of(self@),
    {
        match self.get("status") {
            Some(code) => ExecutionStatus::from_isolate_status(code),
            None => ExecutionStatus::Okay,
        }
    }

    /// CPU time used.
    pub fn time(&self) -> (r: Seconds)
        ensures
            r == seconds_or_zero(self@, "time"@),
    {
        match self.get_seconds("time") {
            Some(t) => t,
            None => Seconds::zero(),
        }
    }

    /// Wall-clock time used.
    pub fn wall_time(&self) -> (r: Seconds)
        ensures
            r == seconds_or_zero(self@, "time-wall"@),
    {
        match self.get_seconds("time-wall") {
            Some(t) => t,
            None => Seconds::zero(),
        }
    }

    /// Peak memory in kilobytes.
    pub fn memory(&self) -> (r: u64)
        ensures
            r == memory_of(self@),
    {
        match self.get_u64("cg-mem") {
            Some(n) => n,
            None => match self.get_u64("max-rss") {
                Some(n) => n,
                None => 0,
            },
        }
    }

    /// Memory of the whole control group in kilobytes.
    pub fn cg_memory(&self) -> (r: Option<u64>)
        ensures
            r == unsigned_at(self@, "cg-mem"@),
    {
        self.get_u64("cg-mem")
    }

    /// Peak resident set size in kilobytes.
    pub fn max_rss(&self) -> (r: Option<u64>)
        ensures
            r == unsigned_at(self@, "max-rss"@),
    {
        self.get_u64("max-rss")
    }

    /// The program's exit code.
    pub fn exit_code(&self) -> (r: Option<i32>)
        ensures
            r == signed_at(self@, "exitcode"@),
    {
        self.get_i32("exitcode")
    }

    /// The signal that killed the program.
    pub fn signal(&self) -> (r: Option<i32>)
        ensures
            r == signed_at(self@, "exitsig"@),
    {
        self.get_i32("exitsig")
    }

    /// The supervisor's message.
    pub fn message(&self) -> (r: Option<String>)
        ensures
            crate::types::opt_text(r) == lookup(self@, "message"@),
    {
        match self.get("message") {
            Some(text) => Some(text.to_owned()),
            None => None,
        }
    }

    /// Whether the supervisor killed the program.
    pub fn killed(&self) -> (r: bool)
        ensures
            r == self@.contains_key("killed"@),
    {
        self.get("killed").is_some()
    }

    /// Which bound the run went over.
    pub fn limit_exceeded(&self) -> (r: LimitExceeded)
        ensures
            r == limit_of(self@),
    {
        let status = self.status();
        let named = LimitExceeded::from_message(self.get("message"));
        if named.is_exceeded() {
            return named;
        }
        if status == ExecutionStatus::TimeLimitExceeded {
            return LimitExceeded::Time;
        }
        LimitExceeded::NotExceeded
    }

    /// The execution result that the report amounts to, with no output
    /// attached.
    pub fn to_execution_result(&self) -> (r: ExecutionResult)
        ensures
            r@ == report_of(self@),
    {
        ExecutionResult {
            status: self.status(),
            limit_exceeded: self.limit_exceeded(),
            time: self.time(),
            wall_time: self.wall_time(),
            memory: self.memory(),
            cg_memory: self.cg_memory(),
            max_rss: self.max_rss(),
            exit_code: self.exit_code(),
            signal: self.signal(),
            message: self.message(),
            stdout: None,
            stderr: None,
        }
    }
}

impl Default for MetaFile {
    fn default() -> (m: Self)
        ensures
            m@ == Map::<Seq<char>, Seq<char>>::empty(),
    {
        MetaFile::empty()
    }
}

/// The key of the entry that `line` holds.
pub open spec fn entry_key(line: Seq<char>) -> Option<Seq<char>> {
    match parse_line(line) {
        MetaLine::Entry(key, _) => Some(key),
        _ => None,
    }
}

/// The value of the entry that `line` holds.
pub open spec fn entry_value(line: Seq<char>) -> Option<Seq<char>> {
    match parse_line(line) {
        MetaLine::Entry(_, value) => Some(value),
        _ => None,
    }
}

/// A line made of a key, a colon and a value reads as the entry of the
/// trimmed key and the trimmed value, where the key holds no colon and
/// more than whitespace. The value may hold colons.
pub proof fn lemma_read_key_value(key: Seq<char>, value: Seq<char>)
    requires
        trim(key).len() > 0,
        forall|i: int| 0 <= i < key.len() ==> #[trigger] key[i] != ':',
    ensures
        parse_line(key + seq![':'] + value) == MetaLine::Entry(trim(key), trim(value)),
{
    let line = key + seq![':'] + value;
    let n = key.len() as int;
    lemma_trim_bounds(key);
    lemma_trim_bounds(value);
    let ka = leading_spaces(key) as int;
    let kb = key.len() - trailing_spaces(key);
    let va = leading_spaces(value) as int;
    let vb = value.len() - trailing_spaces(value);
    let blank = va == value.len();
    // Where the trimmed line ends: behind the colon, or behind the value.
    let end = if blank {
        n + 1
    } else {
        n + 1 + vb
    };
    assert(line[n] == ':');
    assert forall|i: int| 0 <= i < ka implies is_space(#[trigger] line[i]) by {
        assert(line[i] == key[i]);
    }
    assert forall|i: int| end <= i < line.len() implies is_space(#[trigger] line[i]) by {
        assert(line[i] == value[i - n - 1]);
    }
    assert(line[ka] == key[ka]);
    if !blank {
        assert(line[end - 1] == value[vb - 1]);
    }
    lemma_trim_is(line, ka, end);
    let t = trim(line);
    assert(t =~= key.subrange(ka, n) + seq![':'] + value.take(end - n - 1));
    assert forall|i: int| 0 <= i < n - ka implies #[trigger] t[i] != ':' by {
        assert(t[i] == key[ka + i]);
    }
    assert(t[n - ka] == ':');
    lemma_first_index_of_is(t, ':', n - ka);
    let left = t.take(n - ka);
    let right = t.skip(n - ka + 1);
    assert(left =~= key.subrange(ka, n));
    assert(right =~= value.take(end - n - 1));
    // The key: already without leading whitespace.
    assert forall|i: int| kb - ka <= i < left.len() implies is_space(#[trigger] left[i]) by {
        assert(left[i] == key[ka + i]);
    }
    assert(left[0] == key[ka]);
    assert(left[kb - ka - 1] == key[kb - 1]);
    lemma_trim_is(left, 0, kb - ka);
    assert(left.subrange(0, kb - ka) =~= key.subrange(ka, kb));
    // The value: already without trailing whitespace.
    if blank {
        assert(right =~= Seq::<char>::empty());
        lemma_trim_blank(right);
    } else {
        assert forall|i: int| 0 <= i < va implies is_space(#[trigger] right[i]) by {
            assert(right[i] == value[i]);
        }
        assert(right[va] == value[va]);
        assert(right[vb - 1] == value[vb - 1]);
        lemma_trim_is(right, va, vb);
        assert(right.subrange(va, vb) =~= value.subrange(va, vb));
    }
}

/// Where no line from `n` on is an entry for `key`, the lines before `n`
/// decide what stands under `key`: nothing where there are none, and the
/// value of line `n - 1` where that is an entry for `key`.
pub proof fn lemma_lenient_entries(lines: Seq<Seq<char>>, key: Seq<char>, n: int)
    requires
        0 <= n <= lines.len(),
        forall|j: int| n <= j < lines.len() ==> entry_key(#[trigger] lines[j]) != Some(key),
    ensures
        n == 0 ==> !lenient_entries(lines).contains_key(key),
        n > 0 && entry_key(lines[n - 1]) == Some(key) ==> lookup(lenient_entries(lines), key)
            == entry_value(lines[n - 1]),
    decreases lines.len() - n,
{
    if lines.len() > n {
        let t = lines.drop_last();
        assert forall|j: int| n <= j < t.len() implies entry_key(#[trigger] t[j]) != Some(key) by {
            assert(t[j] == lines[j]);
        }
        lemma_lenient_entries(t, key, n);
        assert(entry_key(lines.last()) != Some(key));
        if n > 0 {
            assert(t[n - 1] == lines[n - 1]);
        }
    } else if n > 0 {
        assert(lines.last() == lines[n - 1]);
    }
}

/// Every line with a colon and a non-empty key puts its trimmed key into
/// the report, and its trimmed value stands there unless a later line has
/// the same key.
pub proof fn lemma_entry_is_kept(content: Seq<char>, i: int)
    requires
        0 <= i < lines_of(content).len(),
        entry_key(lines_of(content)[i]) is Some,
    ensures
        ({
            let lines = lines_of(content);
            let key = entry_key(lines[i])->0;
            let report = MetaFile::lenient(content);
            &&& report.contains_key(key)
            &&& (forall|j: int| i < j < lines.len() ==> entry_key(#[trigger] lines[j]) != Some(key))
                ==> Some(report[key]) == entry_value(lines[i])
        }),
{
    let lines = lines_of(content);
    let key = entry_key(lines[i])->0;
    lemma_key_is_kept(lines, key, i);
    if forall|j: int| i < j < lines.len() ==> entry_key(#[trigger] lines[j]) != Some(key) {
        lemma_lenient_entries(lines, key, i + 1);
    }
}

proof fn lemma_key_is_kept(lines: Seq<Seq<char>>, key: Seq<char>, i: int)
    requires
        0 <= i < lines.len(),
        entry_key(lines[i]) == Some(key),
    ensures
        lenient_entries(lines).contains_key(key),
    decreases lines.len(),
{
    if i < lines.len() - 1 {
        let t = lines.drop_last();
        assert(t[i] == lines[i]);
        lemma_key_is_kept(t, key, i);
    }
}

/// A key stands in the report only where some line is an entry for it.
pub proof fn lemma_key_has_line(lines: Seq<Seq<char>>, key: Seq<char>)
    requires
        lenient_entries(lines).contains_key(key),
    ensures
        exists|i: int| 0 <= i < lines.len() && entry_key(#[trigger] lines[i]) == Some(key),
{
    if forall|j: int| 0 <= j < lines.len() ==> entry_key(#[trigger] lines[j]) != Some(key) {
        lemma_lenient_entries(lines, key, 0);
    }
}

} // verus!
