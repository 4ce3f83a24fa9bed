//! Line bookkeeping of the small-screen review backend.
//!
//! The two-line display shows a key and a value split over two fixed
//! lines; this models the splitting of a message buffer into those
//! null-terminated lines.

use vstd::prelude::*;

verus! {

/// Key line size, null terminator included.
pub const KEY_SIZE: usize = 18;

/// Value line size, null terminator included.
pub const MESSAGE_LINE_SIZE: usize = 18;

/// The index of the first null byte, or the whole length without one:
/// how much of a buffer is the string it carries.
pub open spec fn spec_strlen(s: Seq<u8>) -> nat
    decreases s.len(),
{
    if s.len() == 0 {
        0
    } else if s.first() == 0 {
        0
    } else {
        1 + spec_strlen(s.drop_first())
    }
}

/// Compute the length of the null-terminated string in `s`.
pub fn strlen(s: &[u8]) -> (r: usize)
    ensures
        r == spec_strlen(s@),
        r <= s@.len(),
        forall|j: int| 0 <= j < r ==> s@[j] != 0,
{
    let n = s.len();
    let mut i: usize = 0;
    proof {
        assert(s@.skip(0) =~= s@);
    }
    while i < n
        invariant
            i <= n,
            n == s@.len(),
            spec_strlen(s@) == i + spec_strlen(s@.skip(i as int)),
            forall|j: int| 0 <= j < i ==> s@[j] != 0,
        decreases n - i,
    {
        if s[i] == 0 {
            proof {
                assert(s@.skip(i as int).first() == 0);
            }
            return i;
        }
        proof {
            assert(s@.skip(i as int).first() != 0);
            assert(s@.skip(i as int).drop_first() =~= s@.skip(i as int + 1));
        }
        i += 1;
    }
    proof {
        assert(s@.skip(n as int) =~= Seq::<u8>::empty());
    }
    n
}

/// Line state of the small-screen review backend: the key line, the two
/// value lines, and the expert flag.
pub struct NanoSBackend {
    key: Vec<u8>,
    value: Vec<u8>,
    value2: Vec<u8>,
    viewable_size: usize,
    expert: bool,
}

impl NanoSBackend {
    /// The first value line.
    pub closed spec fn spec_value(self) -> Seq<u8> {
        self.value@
    }

    /// The second value line.
    pub closed spec fn spec_value2(self) -> Seq<u8> {
        self.value2@
    }

    /// Whether expert mode is on.
    pub closed spec fn spec_expert(self) -> bool {
        self.expert
    }

    /// All three line buffers at their fixed sizes.
    pub open spec fn wf(self) -> bool {
        &&& self.spec_value().len() == MESSAGE_LINE_SIZE
        &&& self.spec_value2().len() == MESSAGE_LINE_SIZE
    }

    /// A fresh backend with zeroed lines.
    pub fn new() -> (r: NanoSBackend)
        ensures
            r.wf(),
    {
        NanoSBackend {
            key: make_line(),
            value: make_line(),
            value2: make_line(),
            viewable_size: 0,
            expert: false,
        }
    }

    /// Split a rendered message over the two value lines.
    ///
    /// A message short enough for one line lands null-terminated in the
    /// first, leaving the second empty; a longer one is cut at the first
    /// line's capacity and continues in the second.
    pub fn split_value_field(&mut self, message_buf: &[u8])
        requires
            old(self).wf(),
            spec_strlen(message_buf@) + 1 < 2 * MESSAGE_LINE_SIZE,
        ensures
            final(self).wf(),
            ({
                let len = spec_strlen(message_buf@);
                if len >= MESSAGE_LINE_SIZE {
                    &&& final(self).spec_value().take(MESSAGE_LINE_SIZE - 1) == message_buf@
                        .take(MESSAGE_LINE_SIZE - 1)
                    &&& final(self).spec_value()[MESSAGE_LINE_SIZE - 1] == 0u8
                    &&& final(self).spec_value2().take(
                        len - (MESSAGE_LINE_SIZE - 1),
                    ) == message_buf@.subrange(MESSAGE_LINE_SIZE - 1, len as int)
                    &&& final(self).spec_value2()[len - (MESSAGE_LINE_SIZE - 1)] == 0u8
                } else {
                    &&& final(self).spec_value().take(len as int) == message_buf@.take(len as int)
                    &&& final(self).spec_value()[len as int] == 0u8
                    &&& final(self).spec_value2()[0] == 0u8
                }
            }),
    {
        let len = strlen(message_buf);

        if len >= MESSAGE_LINE_SIZE {
            copy_line(&mut self.value, message_buf, 0, MESSAGE_LINE_SIZE - 1);
            copy_line(&mut self.value2, message_buf, MESSAGE_LINE_SIZE - 1, len);
        } else {
            copy_line(&mut self.value, message_buf, 0, len);
            self.value2.set(0, 0);
        }
    }

    /// Whether expert mode is on.
    pub fn expert(&self) -> (r: bool)
        ensures
            r == self.spec_expert(),
    {
        self.expert
    }

    /// Toggle expert mode.
    pub fn toggle_expert(&mut self)
        ensures
            final(self).spec_expert() == !old(self).spec_expert(),
            final(self).spec_value() == old(self).spec_value(),
            final(self).spec_value2() == old(self).spec_value2(),
    {
        self.expert = !self.expert;
    }
}

/// A zeroed line buffer.
fn make_line() -> (r: Vec<u8>)
    ensures
        r@.len() == MESSAGE_LINE_SIZE,
        forall|i: int| 0 <= i < MESSAGE_LINE_SIZE ==> r@[i] == 0u8,
{
    let mut v: Vec<u8> = Vec::new();
    let mut i: usize = 0;
    while i < MESSAGE_LINE_SIZE
        invariant
            i <= MESSAGE_LINE_SIZE,
            v@.len() == i,
            forall|j: int| 0 <= j < i ==> v@[j] == 0u8,
        decreases MESSAGE_LINE_SIZE - i,
    {
        v.push(0);
        i += 1;
    }
    v
}

/// Copy `src[from..to]` to the front of `line` and null-terminate it.
fn copy_line(line: &mut Vec<u8>, src: &[u8], from: usize, to: usize)
    requires
        from <= to <= src@.len(),
        to - from < old(line)@.len(),
    ensures
        final(line)@.len() == old(line)@.len(),
        final(line)@.take(to - from) == src@.subrange(from as int, to as int),
        final(line)@[to - from] == 0u8,
{
    let mut i = from;
    while i < to
        invariant
            from <= i <= to <= src@.len(),
            to - from < line@.len(),
            line@.len() == old(line)@.len(),
            line@.take(i - from) == src@.subrange(from as int, i as int),
        decreases to - i,
    {
        line.set(i - from, src[i]);
        i += 1;
        proof {
            assert(line@.take(i - from) =~= line@.take(i - 1 - from).push(src@[i - 1]));
            assert(src@.subrange(from as int, i as int) =~= src@.subrange(
                from as int,
                i - 1 as int,
            ).push(src@[i - 1]));
        }
    }
    line.set(to - from, 0);
    proof {
        assert(line@.take(to - from) =~= src@.subrange(from as int, to as int));
    }
}

} // verus!
