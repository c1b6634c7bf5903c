use crate::error::{Error, Result, WindowsError};
use crate::format::string::{
    bytes_of, decode_utf16_lossy, encode_utf16, lossy_utf8, utf16_of, utf16_of_char, write_units,
};
use crate::lock::{lock_failure, GlobalObject, LockedPtr};
use vstd::prelude::*;

verus! {

/// The size in bytes of the header of a drop list.
pub const DROP_HEADER_SIZE: usize = 20;

/// The header of a drop list: the offset of the path table, which is
/// the header's own size; a drop point of zero; the flag for a point
/// outside the client area, set; the flag for wide characters, set.
/// Each is four bytes, the lowest first, the point twice four.
pub open spec fn drop_header() -> Seq<u8> {
    seq![
        20u8, 0u8, 0u8, 0u8,
        0u8, 0u8, 0u8, 0u8,
        0u8, 0u8, 0u8, 0u8,
        1u8, 0u8, 0u8, 0u8,
        1u8, 0u8, 0u8, 0u8,
    ]
}

/// The texts of a list of strings.
pub open spec fn texts(paths: Seq<String>) -> Seq<Seq<char>> {
    Seq::new(paths.len(), |i: int| paths[i]@)
}

/// The runs of code units that a list of vectors holds.
pub open spec fn unit_runs(runs: Seq<Vec<u16>>) -> Seq<Seq<u16>> {
    Seq::new(runs.len(), |i: int| runs[i]@)
}

/// The code units of each path of a list.
pub open spec fn encoded(paths: Seq<Seq<char>>) -> Seq<Seq<u16>> {
    Seq::new(paths.len(), |i: int| utf16_of(paths[i]))
}

/// The first `n` runs, a zero unit behind each.
pub open spec fn joined(runs: Seq<Seq<u16>>, n: int) -> Seq<u16>
    decreases n,
{
    if n <= 0 {
        Seq::<u16>::empty()
    } else {
        joined(runs, n - 1) + runs[n - 1].push(0u16)
    }
}

/// The table that holds the runs: every run with its terminator, and
/// one more zero unit that ends the list. Where there is no run, a
/// zero unit stands in the place of the last run's terminator, so that
/// the table ends with two zero units whatever it holds.
pub open spec fn table_of(runs: Seq<Seq<u16>>) -> Seq<u16> {
    if runs.len() == 0 {
        seq![0u16, 0u16]
    } else {
        joined(runs, runs.len() as int).push(0u16)
    }
}

/// The path table of a drop list: the table of the paths' code units.
pub open spec fn path_table(paths: Seq<Seq<char>>) -> Seq<u16> {
    table_of(encoded(paths))
}

/// The block of a drop list with the given path table: the header, and
/// behind it the table as bytes.
pub open spec fn drop_block(table: Seq<u16>) -> Seq<u8> {
    drop_header() + bytes_of(table)
}

/// The block that stands for a list of paths on the clipboard.
pub open spec fn drop_payload(paths: Seq<Seq<char>>) -> Seq<u8> {
    drop_block(path_table(paths))
}

/// Every path of the list is the text that its own code units decode
/// to.
pub open spec fn decode_back(paths: Seq<Seq<char>>) -> bool {
    forall|i: int| 0 <= i < paths.len() ==> lossy_utf8(#[trigger] utf16_of(paths[i])) == paths[i]
}

/// Encodes each path of a list as UTF-16.
pub fn encode_each(paths: &Vec<String>) -> (runs: Vec<Vec<u16>>)
    ensures
        unit_runs(runs@) == encoded(texts(paths@)),
        decode_back(texts(paths@)),
{
    let mut runs: Vec<Vec<u16>> = Vec::new();
    let mut i: usize = 0;
    while i < paths.len()
        invariant
            i <= paths@.len(),
            runs@.len() == i,
            forall|k: int| 0 <= k < i ==> (#[trigger] runs@[k])@ == utf16_of(paths@[k]@),
            forall|k: int|
                0 <= k < i ==> lossy_utf8(#[trigger] utf16_of(texts(paths@)[k])) == texts(paths@)[k],
        decreases paths@.len() - i,
    {
        let units = encode_utf16(paths[i].as_str());
        runs.push(units);
        i = i + 1;
    }
    assert(unit_runs(runs@) =~= encoded(texts(paths@)));
    runs
}

/// Joins runs of code units into one table: a zero unit behind each
/// run, and one more behind the last. For no runs the table is two
/// zero units.
pub fn join_paths(runs: &Vec<Vec<u16>>) -> (table: Vec<u16>)
    ensures
        table@ == table_of(unit_runs(runs@)),
{
    let mut list: Vec<u16> = Vec::new();
    let mut i: usize = 0;
    while i < runs.len()
        invariant
            i <= runs@.len(),
            list@ == joined(unit_runs(runs@), i as int),
        decreases runs@.len() - i,
    {
        list.extend_from_slice(runs[i].as_slice());
        list.push(0u16);
        i = i + 1;
    }
    if runs.len() == 0 {
        list.push(0u16);
    }
    list.push(0u16);
    assert(list@ =~= table_of(unit_runs(runs@)));
    list
}

/// Builds the path table of a list of paths.
pub fn encode_paths(paths: &Vec<String>) -> (table: Vec<u16>)
    ensures
        table@ == path_table(texts(paths@)),
        decode_back(texts(paths@)),
{
    let runs = encode_each(paths);
    join_paths(&runs)
}

/// Builds the block of a drop list around its path table.
pub fn frame(table: &Vec<u16>) -> (payload: Vec<u8>)
    ensures
        payload@ == drop_block(table@),
{
    let mut payload: Vec<u8> = Vec::new();
    payload.push(20u8);
    payload.push(0u8);
    payload.push(0u8);
    payload.push(0u8);
    let mut i: usize = 0;
    while i < 8
        invariant
            i <= 8,
            payload@ =~= drop_header().subrange(0, 4 + i),
        decreases 8 - i,
    {
        payload.push(0u8);
        i = i + 1;
    }
    payload.push(1u8);
    payload.push(0u8);
    payload.push(0u8);
    payload.push(0u8);
    payload.push(1u8);
    payload.push(0u8);
    payload.push(0u8);
    payload.push(0u8);
    assert(payload@ =~= drop_header());
    let mut bytes = write_units(table);
    payload.append(&mut bytes);
    payload
}

/// Builds the block that stands for a list of paths on the clipboard.
pub fn encode(paths: &Vec<String>) -> (payload: Vec<u8>)
    ensures
        payload@ == drop_payload(texts(paths@)),
        decode_back(texts(paths@)),
{
    let table = encode_paths(paths);
    frame(&table)
}

/// A table ends with two zero units, whatever it holds: the
/// terminator of the last run, or what stands for it where there is
/// no run, and the terminator of the list.
pub proof fn lemma_table_double_terminated(runs: Seq<Seq<u16>>)
    ensures
        table_of(runs).len() >= 2,
        table_of(runs)[table_of(runs).len() - 1] == 0,
        table_of(runs)[table_of(runs).len() - 2] == 0,
{
}

/// The block of a drop list ends with the last two units of its path
/// table, which lie behind the header and are zero, whatever the list
/// holds.
pub proof fn lemma_block_double_terminated(runs: Seq<Seq<u16>>)
    ensures
        drop_block(table_of(runs)).len() == DROP_HEADER_SIZE + 2 * table_of(runs).len(),
        drop_block(table_of(runs)).len() >= DROP_HEADER_SIZE + 4,
        forall|k: int|
            drop_block(table_of(runs)).len() - 4 <= k < drop_block(table_of(runs)).len()
                ==> drop_block(table_of(runs))[k] == 0,
{
    let table = table_of(runs);
    let payload = drop_block(table);
    assert(payload.len() == 20 + 2 * table.len());
    lemma_table_double_terminated(runs);
    assert forall|k: int| payload.len() - 4 <= k < payload.len() implies payload[k] == 0 by {
        assert(payload[k] == bytes_of(table)[k - 20]);
        assert((k - 20) / 2 >= table.len() - 2);
    }
}

/// The block that stands for a list of paths ends with two zero
/// units behind the header, whatever the list holds, the empty list
/// too.
pub proof fn lemma_payload_double_terminated(paths: Seq<Seq<char>>)
    ensures
        drop_payload(paths).len() == DROP_HEADER_SIZE + 2 * path_table(paths).len(),
        drop_payload(paths).len() >= DROP_HEADER_SIZE + 4,
        path_table(paths)[path_table(paths).len() - 1] == 0,
        path_table(paths)[path_table(paths).len() - 2] == 0,
        forall|k: int|
            drop_payload(paths).len() - 4 <= k < drop_payload(paths).len() ==> drop_payload(
                paths,
            )[k] == 0,
{
    lemma_table_double_terminated(encoded(paths));
    lemma_block_double_terminated(encoded(paths));
}

/// No path of the list is empty, and none holds the character
/// U+0000.
pub open spec fn plain_paths(paths: Seq<Seq<char>>) -> bool {
    forall|i: int|
        0 <= i < paths.len() ==> (#[trigger] paths[i]).len() > 0 && forall|k: int|
            0 <= k < paths[i].len() ==> paths[i][k] as u32 != 0
}

/// The code units of a text without U+0000 hold no zero unit, and are
/// at least as many as its characters.
pub proof fn lemma_plain_units(chars: Seq<char>)
    requires
        forall|k: int| 0 <= k < chars.len() ==> chars[k] as u32 != 0,
    ensures
        utf16_of(chars).len() >= chars.len(),
        forall|j: int| 0 <= j < utf16_of(chars).len() ==> utf16_of(chars)[j] != 0,
    decreases chars.len(),
{
    if chars.len() > 0 {
        lemma_plain_units(chars.drop_last());
        let c = chars.last();
        let v = c as u32 as int;
        vstd::utf8::char_is_scalar(c);
        assert(v != 0);
        assert(v <= 0x10FFFF);
        let tail = utf16_of_char(c);
        assert(forall|j: int| 0 <= j < tail.len() ==> tail[j] != 0);
        assert(utf16_of(chars) == utf16_of(chars.drop_last()) + tail);
    }
}

/// A table keeps the code units of plain paths apart.
pub proof fn lemma_plain_paths(paths: Seq<Seq<char>>)
    requires
        plain_paths(paths),
    ensures
        plain_runs(encoded(paths)),
{
    assert forall|i: int| 0 <= i < encoded(paths).len() implies (#[trigger] encoded(paths)[i]).len()
        > 0 && forall|k: int| 0 <= k < encoded(paths)[i].len() ==> encoded(paths)[i][k] != 0 by {
        assert(paths[i].len() > 0);
        lemma_plain_units(paths[i]);
    }
}

/// The index of the first zero unit at or after `start`, or the
/// length of `table` where there is none.
pub open spec fn run_end(table: Seq<u16>, start: int) -> int
    decreases table.len() - start,
{
    if start >= table.len() || table[start] == 0 {
        start
    } else {
        run_end(table, start + 1)
    }
}

/// Where run `i` of a table starts: the first at its head, each other
/// behind the terminator of the one before.
pub open spec fn run_start(table: Seq<u16>, i: nat) -> int
    decreases i,
{
    if i == 0 {
        0
    } else {
        run_end(table, run_start(table, (i - 1) as nat)) + 1
    }
}

/// Whether the table ends before run `i`: where the run would start,
/// nothing stands but the terminator of the list.
pub open spec fn run_is_empty(table: Seq<u16>, i: nat) -> bool {
    run_start(table, i) >= table.len() || table[run_start(table, i)] == 0
}

/// Run `i` of a table: the units from its start up to its terminator.
pub open spec fn run(table: Seq<u16>, i: nat) -> Seq<u16> {
    table.subrange(run_start(table, i), run_end(table, run_start(table, i)))
}

/// The runs hold no zero unit, and none of them is empty: a table
/// keeps such runs apart.
pub open spec fn plain_runs(runs: Seq<Seq<u16>>) -> bool {
    forall|i: int|
        0 <= i < runs.len() ==> (#[trigger] runs[i]).len() > 0 && forall|k: int|
            0 <= k < runs[i].len() ==> runs[i][k] != 0
}

/// Whether a table keeps the runs apart: whether none of them is empty
/// or holds a zero unit.
pub fn keeps_apart(runs: &Vec<Vec<u16>>) -> (plain: bool)
    ensures
        plain == plain_runs(unit_runs(runs@)),
{
    let mut i: usize = 0;
    while i < runs.len()
        invariant
            i <= runs@.len(),
            forall|q: int|
                0 <= q < i ==> (#[trigger] unit_runs(runs@)[q]).len() > 0 && forall|k: int|
                    0 <= k < unit_runs(runs@)[q].len() ==> unit_runs(runs@)[q][k] != 0,
        decreases runs@.len() - i,
    {
        let run = &runs[i];
        if run.len() == 0 {
            assert(unit_runs(runs@)[i as int].len() == 0);
            return false;
        }
        let mut k: usize = 0;
        while k < run.len()
            invariant
                k <= run@.len(),
                i < runs@.len(),
                run@ == unit_runs(runs@)[i as int],
                forall|j: int| 0 <= j < k ==> run@[j] != 0,
            decreases run@.len() - k,
        {
            if run[k] == 0 {
                assert(unit_runs(runs@)[i as int][k as int] == 0);
                return false;
            }
            k = k + 1;
        }
        i = i + 1;
    }
    true
}

/// The first runs of a list are joined at the head of what all of them
/// are joined to.
proof fn lemma_joined_prefix(runs: Seq<Seq<u16>>, i: int, n: int)
    requires
        0 <= i <= n <= runs.len(),
    ensures
        joined(runs, i).len() <= joined(runs, n).len(),
        joined(runs, n).subrange(0, joined(runs, i).len() as int) == joined(runs, i),
    decreases n - i,
{
    if i < n {
        lemma_joined_prefix(runs, i, n - 1);
        assert(joined(runs, n).subrange(0, joined(runs, i).len() as int) =~= joined(
            runs,
            n - 1,
        ).subrange(0, joined(runs, i).len() as int));
    } else {
        assert(joined(runs, n).subrange(0, joined(runs, i).len() as int) =~= joined(runs, i));
    }
}

/// A run without a zero unit ends at the zero unit behind it.
proof fn lemma_run_end(table: Seq<u16>, start: int, end: int)
    requires
        0 <= start <= end < table.len(),
        forall|k: int| start <= k < end ==> table[k] != 0,
        table[end] == 0,
    ensures
        run_end(table, start) == end,
    decreases end - start,
{
    if start < end {
        lemma_run_end(table, start + 1, end);
    }
}

/// Run `i` of the table of plain runs starts where the runs before it
/// end, and is run `i` of the list.
proof fn lemma_run_of_table(runs: Seq<Seq<u16>>, i: nat)
    requires
        plain_runs(runs),
        i < runs.len(),
    ensures
        run_start(table_of(runs), i) == joined(runs, i as int).len(),
        run_end(table_of(runs), run_start(table_of(runs), i)) == joined(runs, i as int).len()
            + runs[i as int].len(),
        !run_is_empty(table_of(runs), i),
        run(table_of(runs), i) == runs[i as int],
    decreases i,
{
    let table = table_of(runs);
    let n = runs.len() as int;
    if i > 0 {
        lemma_run_of_table(runs, (i - 1) as nat);
    }
    let start = joined(runs, i as int).len() as int;
    let end = start + runs[i as int].len();
    lemma_joined_prefix(runs, (i + 1) as int, n);
    let head = joined(runs, (i + 1) as int);
    assert(head == joined(runs, i as int) + runs[i as int].push(0u16));
    assert forall|k: int| 0 <= k < head.len() implies table[k] == head[k] by {
        assert(joined(runs, n).subrange(0, head.len() as int)[k] == joined(runs, n)[k]);
    }
    assert forall|k: int| start <= k < end implies table[k] != 0 by {
        assert(head[k] == runs[i as int].push(0u16)[k - start]);
        assert(runs[i as int][k - start] != 0);
    }
    assert(table[end] == 0) by {
        assert(head[end] == runs[i as int].push(0u16)[end - start]);
    }
    lemma_run_end(table, start, end);
    assert(table[start] != 0);
    assert(run(table, i) =~= runs[i as int]) by {
        assert forall|k: int| 0 <= k < runs[i as int].len() implies table.subrange(start, end)[k]
            == runs[i as int][k] by {
            assert(head[start + k] == runs[i as int].push(0u16)[k]);
        }
    }
}

/// Behind the last run of the table of plain runs stands the
/// terminator of the list.
proof fn lemma_table_ends(runs: Seq<Seq<u16>>)
    requires
        plain_runs(runs),
    ensures
        run_is_empty(table_of(runs), runs.len()),
{
    let table = table_of(runs);
    let n = runs.len();
    if n > 0 {
        lemma_run_of_table(runs, (n - 1) as nat);
        assert(joined(runs, n as int) == joined(runs, n - 1) + runs[n - 1].push(0u16));
        assert(run_start(table, n) == joined(runs, n as int).len());
        assert(table[table.len() - 1] == 0);
    } else {
        assert(table[0] == 0);
    }
}

/// A list of paths comes back from the clipboard as it went in, order
/// and content, wherever the list holds a path, no path of it is empty
/// or holds U+0000, and the system reports of the stored path table
/// run by run what stands in it.
///
/// Each path is the text that its own code units decode to, as
/// `encode` says it is.
pub proof fn lemma_files_round_trip(
    paths: Seq<Seq<char>>,
    drop: DropHandle,
    decoded: Result<Vec<String>>,
)
    requires
        paths.len() > 0,
        plain_paths(paths),
        decode_back(paths),
        drop.reads(path_table(paths)),
        drop.decodes_to(decoded),
    ensures
        drop.count == paths.len(),
        decoded matches Ok(list) && texts(list@) == paths,
{
    lemma_plain_paths(paths);
    lemma_runs_round_trip(paths, drop, decoded);
}

/// The same, for a list whose code units a table keeps apart, as
/// `keeps_apart` tests it.
pub proof fn lemma_runs_round_trip(
    paths: Seq<Seq<char>>,
    drop: DropHandle,
    decoded: Result<Vec<String>>,
)
    requires
        paths.len() > 0,
        plain_runs(encoded(paths)),
        decode_back(paths),
        drop.reads(path_table(paths)),
        drop.decodes_to(decoded),
    ensures
        drop.count == paths.len(),
        decoded matches Ok(list) && texts(list@) == paths,
{
    let runs = encoded(paths);
    let table = path_table(paths);
    lemma_table_ends(runs);
    if drop.count < paths.len() {
        lemma_run_of_table(runs, drop.count as nat);
    }
    if drop.count > paths.len() {
        let last: int = paths.len() as int;
        assert(!run_is_empty(table, last as nat));
    }
    assert forall|i: int| 0 <= i < paths.len() implies #[trigger] drop.written(i) == utf16_of(
        paths[i],
    ) by {
        lemma_run_of_table(runs, i as nat);
        assert(drop.written(i) == run(table, i as nat));
    }
    lemma_no_failure(drop, 0);
    let list = decoded->Ok_0@;
    assert forall|i: int| 0 <= i < paths.len() implies texts(list)[i] == paths[i] by {
        assert(list[i]@ == lossy_utf8(drop.written(i)));
        assert(drop.written(i) == utf16_of(paths[i]));
        assert(lossy_utf8(utf16_of(paths[i])) == paths[i]);
    }
    assert(texts(list) =~= paths);
}

/// Where no path from `from` on fails, there is no first failure.
proof fn lemma_no_failure(drop: DropHandle, from: int)
    requires
        0 <= from,
        forall|i: int| from <= i < drop.count ==> drop.failure_at(i) is None,
    ensures
        drop.first_failure(from) is None,
    decreases drop.count - from,
{
    if from < drop.count {
        lemma_no_failure(drop, from + 1);
    }
}

/// What the system answered about one path of a drop list: the length
/// it reported for the path, the buffer that was handed to it for the
/// path, as it left it, and the number of units it reported as written.
#[derive(Debug, Clone, PartialEq, Eq)]
pub struct PathAnswer {
    pub needed_len: u32,
    pub written_len: u32,
    pub buffer: Vec<u16>,
}

/// What the system answered about a drop list: the number of paths,
/// the answers about the paths in the system's order, as far as they
/// were asked for, and the status code read after the first query
/// that reported zero.
#[derive(Debug, Clone, PartialEq, Eq)]
pub struct DropHandle {
    pub count: u32,
    pub answers: Vec<PathAnswer>,
    pub error: WindowsError,
}

/// The length in units of the buffer to hand to the system for a path
/// of the reported length: room for the path and its terminator. For a
/// reported length of zero there is nothing to fetch.
pub fn path_buffer_len(needed_len: u32) -> (len: Option<u64>)
    ensures
        len == (if needed_len == 0 {
            None
        } else {
            Some((needed_len + 1) as u64)
        }),
{
    if needed_len == 0 {
        None
    } else {
        Some(needed_len as u64 + 1)
    }
}

impl PathAnswer {
    /// Whether the system reported no length for the path, or wrote
    /// nothing for it.
    pub open spec fn is_failure(&self) -> bool {
        self.needed_len == 0 || self.written_len == 0
    }

    /// Whether the system reported no length for the path, or wrote
    /// nothing for it: where it did, its status code is to be read.
    pub fn failed(&self) -> (failed: bool)
        ensures
            failed == self.is_failure(),
    {
        self.needed_len == 0 || self.written_len == 0
    }
}

impl DropHandle {
    /// Why the path at `idx` cannot be had, if it cannot: the system
    /// reported no length for it (or was not asked), or wrote nothing.
    pub open spec fn failure_at(&self, idx: int) -> Option<Error> {
        if idx >= self.answers@.len() || self.answers@[idx].needed_len == 0 {
            Some(Error::PathLength { idx: idx as usize, err: self.error })
        } else if self.answers@[idx].written_len == 0 {
            Some(Error::FilePath { idx: idx as usize, err: self.error })
        } else {
            None
        }
    }

    /// The first failure among the paths from `from` on, if there is
    /// one.
    pub open spec fn first_failure(&self, from: int) -> Option<Error>
        decreases self.count - from,
    {
        if from >= self.count {
            None
        } else if self.failure_at(from) is Some {
            self.failure_at(from)
        } else {
            self.first_failure(from + 1)
        }
    }

    /// The units that the system wrote for the path at `idx`: the
    /// buffer, cut to the length reported as written.
    pub open spec fn written(&self, idx: int) -> Seq<u16> {
        let answer = self.answers@[idx];
        if answer.written_len < answer.buffer@.len() {
            answer.buffer@.subrange(0, answer.written_len as int)
        } else {
            answer.buffer@
        }
    }

    /// The index of the path to ask the system about next, if there
    /// is one: the first that has no answer yet, as long as the
    /// system counted that many paths and no answer so far is a
    /// failure.
    pub open spec fn pending(&self) -> Option<u32> {
        if self.answers@.len() < self.count && forall|i: int|
            0 <= i < self.answers@.len() ==> !(#[trigger] self.answers@[i]).is_failure() {
            Some(self.answers@.len() as u32)
        } else {
            None
        }
    }

    /// The index of the path to ask the system about next, or `None`
    /// where the querying is done.
    pub fn next_index(&self) -> (next: Option<u32>)
        ensures
            next == self.pending(),
    {
        let recorded: usize = self.answers.len();
        if recorded >= self.count as usize {
            return None;
        }
        let mut i: usize = 0;
        while i < recorded
            invariant
                i <= recorded,
                recorded == self.answers@.len(),
                forall|k: int| 0 <= k < i ==> !(#[trigger] self.answers@[k]).is_failure(),
            decreases recorded - i,
        {
            if self.answers[i].failed() {
                return None;
            }
            i = i + 1;
        }
        Some(recorded as u32)
    }

    /// `paths` is what this drop list decodes to.
    ///
    /// A count of zero is `PathCount`. The first path that fails ends
    /// the work with its failure. Otherwise there are as many paths as
    /// were counted, each of them what the system wrote for it,
    /// decoded with every unpaired surrogate replaced.
    pub open spec fn decodes_to(&self, paths: Result<Vec<String>>) -> bool {
        if self.count == 0 {
            paths == Err::<Vec<String>, Error>(Error::PathCount(self.error))
        } else {
            match self.first_failure(0) {
                Some(e) => paths == Err::<Vec<String>, Error>(e),
                None => paths matches Ok(list) && list@.len() == self.count && forall|i: int|
                    0 <= i < self.count ==> (#[trigger] list@[i])@ == lossy_utf8(self.written(i)),
            }
        }
    }

    /// The answers are those that the system gives of a block with
    /// this path table: it counts the runs up to the first empty one,
    /// and of each it reports a length and writes the run.
    pub open spec fn reads(&self, table: Seq<u16>) -> bool {
        &&& run_is_empty(table, self.count as nat)
        &&& forall|i: int| 0 <= i < self.count ==> !#[trigger] run_is_empty(table, i as nat)
        &&& forall|i: int| 0 <= i < self.count ==> #[trigger] self.failure_at(i) is None
        &&& forall|i: int| 0 <= i < self.count ==> #[trigger] self.written(i) == run(table, i as nat)
    }

    /// Decodes the paths of a drop list, in the system's order.
    ///
    /// A count of zero is `PathCount`. The first path for which the
    /// system reported no length, or wrote nothing, ends the work with
    /// `PathLength` or `FilePath` and its index. Otherwise each path is
    /// what the system wrote for it, decoded with every unpaired
    /// surrogate replaced.
    pub fn get_files(&self) -> (paths: Result<Vec<String>>)
        ensures
            self.decodes_to(paths),
    {
        if self.count == 0 {
            return Err(Error::PathCount(self.error));
        }
        let file_count: usize = self.count as usize;
        let mut out: Vec<String> = Vec::new();
        let mut idx: usize = 0;
        while idx < file_count
            invariant
                idx <= file_count,
                file_count == self.count,
                self.first_failure(0) == self.first_failure(idx as int),
                out@.len() == idx,
                forall|i: int| 0 <= i < idx ==> (#[trigger] out@[i])@ == lossy_utf8(self.written(i)),
            decreases file_count - idx,
        {
            if idx >= self.answers.len() {
                return Err(Error::PathLength { idx, err: self.error });
            }
            let answer = &self.answers[idx];
            if answer.needed_len == 0 {
                return Err(Error::PathLength { idx, err: self.error });
            }
            if answer.written_len == 0 {
                return Err(Error::FilePath { idx, err: self.error });
            }
            let size: usize = answer.buffer.len();
            let end: usize = if (answer.written_len as usize) < size {
                answer.written_len as usize
            } else {
                size
            };
            let units = vstd::slice::slice_subrange(answer.buffer.as_slice(), 0, end);
            assert(units@ =~= self.written(idx as int));
            let path = decode_utf16_lossy(units);
            out.push(path);
            idx = idx + 1;
        }
        Ok(out)
    }
}

/// Decodes the paths of the drop list behind a handle.
///
/// The handle is locked first, and a lock that failed is reported as
/// for any other block; then the paths are decoded as `get_files`
/// says.
pub fn get(object: GlobalObject, drop: &DropHandle) -> (paths: Result<Vec<String>>)
    ensures
        match lock_failure(object) {
            Some(e) => paths == Err::<Vec<String>, Error>(e),
            None => drop.decodes_to(paths),
        },
{
    match LockedPtr::new(object, 0) {
        Err(e) => Err(e),
        Ok(_block) => drop.get_files(),
    }
}

} // verus!
