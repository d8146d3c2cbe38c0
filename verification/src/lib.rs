//! An in-memory line-buffering sink for capturing log output in tests.
//!
//! [`TestLogCollector`] accepts arbitrary text fragments, splits them on the
//! line terminator `'\n'`, stores completed lines in arrival order, and keeps
//! the tail of an incomplete line as a pending fragment until a terminator
//! arrives or completion is forced with `flush`.

use vstd::prelude::*;

verus! {

/// The abstract state of a collector: the completed lines in arrival order,
/// and the pending fragment written since the last terminator (or creation,
/// or the last clear).
pub struct CollectorView {
    pub lines: Seq<Seq<char>>,
    pub pending: Seq<char>,
}

/// The state of a freshly created (or just cleared) collector.
pub open spec fn empty_view() -> CollectorView {
    CollectorView { lines: Seq::empty(), pending: Seq::empty() }
}

/// True when `s` contains no line terminator.
pub open spec fn terminator_free(s: Seq<char>) -> bool {
    forall|i: int| 0 <= i < s.len() ==> s[i] != '\n'
}

/// Well-formedness: neither the pending fragment nor any completed line
/// contains a line terminator.
pub open spec fn wf(v: CollectorView) -> bool {
    &&& terminator_free(v.pending)
    &&& forall|i: int| 0 <= i < v.lines.len() ==> terminator_free(#[trigger] v.lines[i])
}

/// The effect of one incoming character: a terminator promotes the pending
/// fragment to a completed line; any other character is appended to it.
pub open spec fn step(v: CollectorView, c: char) -> CollectorView {
    if c == '\n' {
        CollectorView { lines: v.lines.push(v.pending), pending: Seq::empty() }
    } else {
        CollectorView { lines: v.lines, pending: v.pending.push(c) }
    }
}

/// The effect of writing a whole sequence of characters, in order.
pub open spec fn process(v: CollectorView, input: Seq<char>) -> CollectorView
    decreases input.len(),
{
    if input.len() == 0 {
        v
    } else {
        step(process(v, input.drop_last()), input.last())
    }
}

/// The effect of forcing completion: a non-empty pending fragment becomes a
/// completed line; an empty one is left alone.
pub open spec fn flushed(v: CollectorView) -> CollectorView {
    if v.pending.len() == 0 {
        v
    } else {
        CollectorView { lines: v.lines.push(v.pending), pending: Seq::empty() }
    }
}

/// The characters that a byte sequence decodes to when read as UTF-8 text
/// with invalid sequences replaced by the substitute character.
pub uninterp spec fn decoded_of(bytes: Seq<u8>) -> Seq<char>;

/// Relies on String::from_utf8_lossy: decodes bytes as UTF-8, replacing each
/// invalid sequence with U+FFFD; the result depends on the bytes alone.
#[verifier::external_body]
fn decode_lossy(buf: &[u8]) -> (r: Vec<char>)
    ensures
        r@ == decoded_of(buf@),
{
    String::from_utf8_lossy(buf).chars().collect()
}

/// Relies on String::push: appends the given character to the end of the
/// string.
pub assume_specification[ String::push ](s: &mut String, ch: char)
    ensures
        final(s)@ == old(s)@.push(ch),
;

/// The number of line terminators in `s`.
pub open spec fn terminator_count(s: Seq<char>) -> nat
    decreases s.len(),
{
    if s.len() == 0 {
        0
    } else {
        terminator_count(s.drop_last()) + (if s.last() == '\n' {
            1nat
        } else {
            0nat
        })
    }
}

/// Consuming `a + b` in one write is the same as consuming `a` and then `b`:
/// how the input is split across calls is invisible to the state reached.
pub proof fn lemma_process_concat(v: CollectorView, a: Seq<char>, b: Seq<char>)
    ensures
        process(v, a + b) == process(process(v, a), b),
    decreases b.len(),
{
    if b.len() == 0 {
        assert(a + b =~= a);
    } else {
        lemma_process_concat(v, a, b.drop_last());
        assert((a + b).drop_last() =~= a + b.drop_last());
        assert((a + b).last() == b.last());
    }
}

/// Writes that contain no terminator complete no line: they only extend the
/// pending fragment, so the line count stays as it was.
pub proof fn lemma_no_terminator_no_lines(v: CollectorView, input: Seq<char>)
    requires
        terminator_free(input),
    ensures
        process(v, input).lines == v.lines,
        process(v, input).pending == v.pending + input,
    decreases input.len(),
{
    if input.len() == 0 {
        assert(v.pending + input =~= v.pending);
    } else {
        lemma_no_terminator_no_lines(v, input.drop_last());
        assert(v.pending + input =~= (v.pending + input.drop_last()).push(input.last()));
    }
}

/// Writing a terminator-free text followed by one terminator to a fresh
/// collector completes exactly one line, equal to that text.
pub proof fn lemma_single_line(s: Seq<char>)
    requires
        terminator_free(s),
    ensures
        process(empty_view(), s.push('\n')) == (CollectorView {
            lines: seq![s],
            pending: Seq::empty(),
        }),
{
    lemma_no_terminator_no_lines(empty_view(), s);
    assert(s.push('\n').drop_last() =~= s);
    assert(Seq::<char>::empty() + s =~= s);
    assert(empty_view().lines.push(s) =~= seq![s]);
}

/// Writing `s1` and then `s2` followed by a terminator, starting with an
/// empty pending fragment, completes exactly one line, the concatenation
/// `s1 + s2`: the split across the two calls is invisible in the result.
pub proof fn lemma_split_invisible(v: CollectorView, s1: Seq<char>, s2: Seq<char>)
    requires
        v.pending.len() == 0,
        terminator_free(s1),
        terminator_free(s2),
    ensures
        process(process(v, s1), s2.push('\n')) == (CollectorView {
            lines: v.lines.push(s1 + s2),
            pending: Seq::empty(),
        }),
{
    lemma_no_terminator_no_lines(v, s1);
    let v1 = process(v, s1);
    lemma_no_terminator_no_lines(v1, s2);
    assert(s2.push('\n').drop_last() =~= s2);
    assert(v1.pending =~= s1);
    assert(v1.pending + s2 =~= s1 + s2);
}

/// Processing any input preserves well-formedness: no completed line and no
/// pending fragment ever contains a terminator.
pub proof fn lemma_process_preserves_wf(v: CollectorView, input: Seq<char>)
    requires
        wf(v),
    ensures
        wf(process(v, input)),
    decreases input.len(),
{
    if input.len() > 0 {
        lemma_process_preserves_wf(v, input.drop_last());
    }
}

/// Forcing completion preserves well-formedness.
pub proof fn lemma_flushed_preserves_wf(v: CollectorView)
    requires
        wf(v),
    ensures
        wf(flushed(v)),
{
}

/// The number of completed lines grows by exactly the number of terminators
/// processed, independent of how the input is split across write calls.
pub proof fn lemma_count_is_terminator_count(v: CollectorView, input: Seq<char>)
    ensures
        process(v, input).lines.len() == v.lines.len() + terminator_count(input),
    decreases input.len(),
{
    if input.len() > 0 {
        lemma_count_is_terminator_count(v, input.drop_last());
    }
}

#[verifier::external_type_specification]
#[verifier::external_body]
#[verifier::reject_recursive_types(T)]
pub struct ExMutex<T: ?Sized>(std::sync::Mutex<T>);

/// The collector state that a mutual-exclusion handle was created around.
pub uninterp spec fn mutex_inner(m: std::sync::Mutex<TestLogCollector>) -> CollectorView;

/// Relies on Mutex::new: creates a new mutex holding exactly the value it
/// was given.
#[verifier::external_body]
fn mutex_new(c: TestLogCollector) -> (m: std::sync::Mutex<TestLogCollector>)
    ensures
        mutex_inner(m) == c@,
{
    std::sync::Mutex::new(c)
}

/// A utility for collecting log messages during testing.
///
/// Written content is split on `'\n'` into completed lines; text after the
/// last terminator is held as a pending fragment. Only `'\n'` terminates a
/// line: a preceding `'\r'` is kept as a literal character of the line.
pub struct TestLogCollector {
    lines: Vec<String>,
    current_line: String,
}

impl View for TestLogCollector {
    type V = CollectorView;

    closed spec fn view(&self) -> CollectorView {
        CollectorView {
            lines: self.lines@.map_values(|s: String| s@),
            pending: self.current_line@,
        }
    }
}

impl TestLogCollector {
    /// Creates a new empty collector.
    pub fn new() -> (r: Self)
        ensures
            r@ == empty_view(),
    {
        let r = Self { lines: Vec::new(), current_line: String::new() };
        proof {
            assert(r@.lines =~= Seq::<Seq<char>>::empty());
        }
        r
    }

    /// Consumes every character of `chars` in order: a `'\n'` promotes the
    /// pending fragment to a completed line, any other character is appended
    /// to the pending fragment.
    pub fn write_chars(&mut self, chars: &Vec<char>)
        ensures
            final(self)@ == process(old(self)@, chars@),
    {
        let n = chars.len();
        let mut i: usize = 0;
        while i < n
            invariant
                i <= n,
                n == chars@.len(),
                self@ == process(old(self)@, chars@.subrange(0, i as int)),
            decreases n - i,
        {
            let ghost prev = self@;
            let c = chars[i];
            if c == '\n' {
                self.lines.push(self.current_line.clone());
                self.current_line = String::new();
                proof {
                    assert(self@.lines =~~= prev.lines.push(prev.pending));
                    assert(self@.pending =~= Seq::<char>::empty());
                }
            } else {
                self.current_line.push(c);
                proof {
                    assert(self@.lines =~~= prev.lines);
                    assert(self@.pending =~= prev.pending.push(c));
                }
            }
            proof {
                assert(self@ =~~= step(prev, c));
                assert(chars@.subrange(0, i as int + 1).drop_last() =~= chars@.subrange(
                    0,
                    i as int,
                ));
            }
            i = i + 1;
        }
        proof {
            assert(chars@.subrange(0, n as int) =~= chars@);
        }
    }

    /// Consumes all of `buf`, decoded as UTF-8 text with invalid sequences
    /// replaced by the substitute character, and returns the number of bytes
    /// consumed, which is always all of them.
    pub fn write(&mut self, buf: &[u8]) -> (n: usize)
        ensures
            n == buf@.len(),
            final(self)@ == process(old(self)@, decoded_of(buf@)),
    {
        let chars = decode_lossy(buf);
        self.write_chars(&chars);
        buf.len()
    }

    /// Returns the number of complete lines collected. The pending fragment
    /// is not counted, even if non-empty.
    pub fn count(&self) -> (n: usize)
        ensures
            n == self@.lines.len(),
    {
        self.lines.len()
    }

    /// Forces completion of the pending fragment: if it is non-empty, it
    /// becomes a new completed line, and exactly one line is added; if it is
    /// already empty, nothing changes.
    pub fn flush(&mut self)
        ensures
            final(self)@ == flushed(old(self)@),
            old(self)@.pending.len() > 0 ==> {
                &&& final(self)@.lines.len() == old(self)@.lines.len() + 1
                &&& final(self)@.lines.last() == old(self)@.pending
                &&& final(self)@.pending.len() == 0
            },
            old(self)@.pending.len() == 0 ==> final(self)@ == old(self)@,
    {
        if !self.current_line.as_str().is_empty() {
            self.lines.push(self.current_line.clone());
            self.current_line = String::new();
            proof {
                assert(self@.lines =~~= old(self)@.lines.push(old(self)@.pending));
                assert(self@.pending =~= Seq::<char>::empty());
                assert(self@ =~~= flushed(old(self)@));
            }
        }
    }

    /// Empties the completed lines and resets the pending fragment,
    /// returning the collector to its initial state.
    pub fn clear(&mut self)
        ensures
            final(self)@ == empty_view(),
    {
        self.lines.clear();
        self.current_line = String::new();
        proof {
            assert(self@.lines =~= Seq::<Seq<char>>::empty());
        }
    }

    /// Returns a reference to the collected lines; the borrow is shared, so
    /// the collector's contents cannot be changed through it.
    pub fn lines(&self) -> (r: &Vec<String>)
        ensures
            r@.map_values(|s: String| s@) == self@.lines,
    {
        &self.lines
    }

    /// Returns an independent copy of all collected lines; changing the copy
    /// does not affect the collector.
    pub fn clone_lines(&self) -> (r: Vec<String>)
        ensures
            r@.map_values(|s: String| s@) == self@.lines,
    {
        let r = self.lines.clone();
        proof {
            assert forall|i: int| 0 <= i < r@.len() implies r@[i]@ == self.lines@[i]@ by {
                assert(cloned::<String>(self.lines[i], r[i]));
            }
            assert(r@.map_values(|s: String| s@) =~~= self@.lines);
        }
        r
    }

    /// Creates a new collector behind a reference-counted mutual-exclusion
    /// handle, for sharing across threads: the handle wraps a collector in
    /// the fresh empty state.
    pub fn new_shared() -> (h: std::sync::Arc<std::sync::Mutex<TestLogCollector>>)
        ensures
            mutex_inner(*h) == empty_view(),
    {
        std::sync::Arc::new(mutex_new(TestLogCollector::new()))
    }
}

} // verus!
