//! Checks on transfers to and from the debuggee's address space, scanning of
//! captured memory, and the canonical hex dump.
use crate::text::{hex_text, push_hex, push_repeated, string_from_chars, string_from_utf8};
use vstd::prelude::*;
use vstd::utf8::{decode_utf8, valid_utf8};

verus! {

/// Widest single access, in bytes, that the inspector accepts.
pub const MAX_ACCESS_WIDTH: usize = 16;

/// Widest access, in bytes, that is carried out atomically.
pub const ATOMIC_ACCESS_WIDTH: usize = 8;

/// Number of bytes rendered on one line of a dump.
pub const BYTES_PER_LINE: usize = 16;

/// Why an access to the debuggee's memory was refused or failed.
#[derive(Debug, Clone, Copy, PartialEq, Eq, Structural)]
pub enum MemoryError {
    /// Fewer bytes than asked for could be read at the address.
    ReadError { address: usize },
    /// Fewer bytes than given could be written at the address.
    WriteError { address: usize },
    /// The protection of the range at the address could not be changed.
    ProtectionError { address: usize },
    /// The access is wider than `MAX_ACCESS_WIDTH`; nothing was transferred.
    UnsupportedWidth { width: usize },
}

/// A captured stretch of the debuggee's address space, starting at `base`.
/// A cell is `None` where the byte could not be read.
pub struct MemorySnapshot {
    pub base: usize,
    pub cells: Vec<Option<u8>>,
}

impl MemorySnapshot {
    /// The byte captured at `address`, if the snapshot covers the address
    /// and the byte was readable.
    pub open spec fn byte_at(&self, address: int) -> Option<u8> {
        if self.base <= address < self.base + self.cells@.len() {
            self.cells@[address - self.base]
        } else {
            None
        }
    }

    /// Whether each of the `width` bytes from `address` on was captured.
    pub open spec fn readable(&self, address: int, width: int) -> bool {
        forall|k: int| 0 <= k < width ==> (#[trigger] self.byte_at(address + k)) is Some
    }

    /// The `width` bytes from `address` on; meaningful where `readable`.
    pub open spec fn bytes_at(&self, address: int, width: int) -> Seq<u8> {
        Seq::new(width as nat, |k: int| self.byte_at(address + k).unwrap())
    }

    /// Whether a read of `pattern.len()` bytes at `address` succeeds and
    /// yields `pattern`.
    pub open spec fn holds(&self, address: int, pattern: Seq<u8>) -> bool {
        &&& self.readable(address, pattern.len() as int)
        &&& self.bytes_at(address, pattern.len() as int) == pattern
    }

    /// Reads one byte.
    pub fn get(&self, address: usize) -> (b: Option<u8>)
        ensures
            b == self.byte_at(address as int),
    {
        if address >= self.base && address - self.base < self.cells.len() {
            self.cells[address - self.base]
        } else {
            None
        }
    }

    /// Whether the bytes at `address` can all be read and equal `pattern`.
    pub fn matches(&self, address: usize, pattern: &[u8]) -> (m: bool)
        requires
            address + pattern@.len() <= usize::MAX,
        ensures
            m == self.holds(address as int, pattern@),
    {
        let mut k: usize = 0;
        while k < pattern.len()
            invariant
                k <= pattern@.len(),
                address + pattern@.len() <= usize::MAX,
                forall|j: int| 0 <= j < k ==> (#[trigger] self.byte_at(address + j)) == Some(pattern@[j]),
            decreases pattern@.len() - k,
        {
            match self.get(address + k) {
                Some(b) => {
                    if b != pattern[k] {
                        proof {
                            let w = pattern@.len() as int;
                            if self.holds(address as int, pattern@) {
                                assert(self.bytes_at(address as int, w)[k as int] == pattern@[k as int]);
                            }
                        }
                        return false;
                    }
                },
                None => {
                    return false;
                },
            }
            k += 1;
        }
        assert(self.bytes_at(address as int, pattern@.len() as int) =~= pattern@);
        true
    }
}

/// Index of the first zero byte, or the length where there is none.
pub open spec fn nul_index(bytes: Seq<u8>) -> int
    decreases bytes.len(),
{
    if bytes.len() == 0 || bytes[0] == 0 {
        0
    } else {
        1 + nul_index(bytes.drop_first())
    }
}

/// `nul_index` is the least index that holds a zero byte.
pub proof fn lemma_nul_index(bytes: Seq<u8>)
    ensures
        0 <= nul_index(bytes) <= bytes.len(),
        forall|i: int| 0 <= i < nul_index(bytes) ==> bytes[i] != 0,
        nul_index(bytes) < bytes.len() ==> bytes[nul_index(bytes)] == 0,
    decreases bytes.len(),
{
    if bytes.len() == 0 || bytes[0] == 0 {
    } else {
        let rest = bytes.drop_first();
        lemma_nul_index(rest);
        assert forall|i: int| 0 <= i < nul_index(bytes) implies bytes[i] != 0 by {
            if i > 0 {
                assert(bytes[i] == rest[i - 1]);
            }
        }
        if nul_index(bytes) < bytes.len() {
            assert(bytes[nul_index(bytes)] == rest[nul_index(rest)]);
        }
    }
}

/// An index up to which no byte is zero, and which ends the bytes or holds
/// a zero, is `nul_index`.
pub proof fn lemma_nul_index_unique(bytes: Seq<u8>, n: int)
    requires
        0 <= n <= bytes.len(),
        forall|i: int| 0 <= i < n ==> bytes[i] != 0,
        n < bytes.len() ==> bytes[n] == 0,
    ensures
        nul_index(bytes) == n,
{
    lemma_nul_index(bytes);
    let m = nul_index(bytes);
    if m < n {
        assert(bytes[m] != 0);
    } else if n < m {
        assert(bytes[n] != 0);
    }
}

/// The text of a NUL-terminated buffer: the bytes before the first zero.
pub open spec fn c_string_bytes(bytes: Seq<u8>) -> Seq<u8> {
    bytes.take(nul_index(bytes))
}

/// Copies the bytes before the first zero byte.
pub fn until_nul(bytes: &[u8]) -> (text: Vec<u8>)
    ensures
        text@ == c_string_bytes(bytes@),
{
    let mut text: Vec<u8> = Vec::new();
    let mut i: usize = 0;
    while i < bytes.len() && bytes[i] != 0
        invariant
            i <= bytes@.len(),
            text@ == bytes@.take(i as int),
            forall|j: int| 0 <= j < i ==> bytes@[j] != 0,
        decreases bytes@.len() - i,
    {
        text.push(bytes[i]);
        assert(bytes@.take(i as int + 1) == bytes@.take(i as int).push(bytes@[i as int]));
        i += 1;
    }
    proof {
        lemma_nul_index_unique(bytes@, i as int);
    }
    text
}

/// The value that little-endian bytes stand for.
pub open spec fn le_value(bytes: Seq<u8>) -> nat
    decreases bytes.len(),
{
    if bytes.len() == 0 {
        0
    } else {
        bytes[0] as nat + 256 * le_value(bytes.drop_first())
    }
}

/// Little-endian bytes stand for a value below `256^len`.
pub proof fn lemma_le_value_bound(bytes: Seq<u8>)
    ensures
        le_value(bytes) < vstd::arithmetic::power::pow(256, bytes.len()),
    decreases bytes.len(),
{
    reveal(vstd::arithmetic::power::pow);
    if bytes.len() > 0 {
        lemma_le_value_bound(bytes.drop_first());
        let rest = le_value(bytes.drop_first());
        let p = vstd::arithmetic::power::pow(256, (bytes.len() - 1) as nat);
        assert(rest + 1 <= p);
        assert(256 * (rest + 1) <= 256 * p) by (nonlinear_arith)
            requires
                rest + 1 <= p,
        ;
    }
}

/// Whether a byte is a visible ASCII character (a space is not).
pub open spec fn is_graphic(b: u8) -> bool {
    0x21 <= b <= 0x7e
}

/// The character that stands for a byte in the text column of a dump.
pub open spec fn ascii_cell(b: u8) -> char {
    if is_graphic(b) {
        b as char
    } else {
        '.'
    }
}

/// The hex column of a dump line: two digits per byte, and a space after
/// every second byte.
pub open spec fn hex_cells(chunk: Seq<u8>) -> Seq<char>
    decreases chunk.len(),
{
    if chunk.len() == 0 {
        seq![]
    } else {
        hex_cells(chunk.drop_last()) + hex_text(chunk.last() as nat, 2) + (if chunk.len() % 2 == 0 {
            seq![' ']
        } else {
            seq![]
        })
    }
}

/// The text column of a dump line.
pub open spec fn ascii_cells(chunk: Seq<u8>) -> Seq<char> {
    Seq::new(chunk.len(), |i: int| ascii_cell(chunk[i]))
}

/// Number of spaces that fill the hex column of a line of `len` bytes.
pub open spec fn padding_width(len: int) -> int {
    if len < 16 {
        (16 - len) * 2 + (16 - len + 1) / 2
    } else {
        0
    }
}

/// One line of a dump: the address in at least eight hex digits, two
/// spaces, the hex column filled to full width, the text column between
/// bars, and a line feed.
pub open spec fn dump_line(address: nat, chunk: Seq<u8>) -> Seq<char> {
    hex_text(address, 8) + seq![' ', ' '] + hex_cells(chunk) + Seq::new(
        padding_width(chunk.len() as int) as nat,
        |i: int| ' ',
    ) + seq![' ', '|'] + ascii_cells(chunk) + seq!['|', '\n']
}

/// The dump of `data`, which starts at `address`: one line for every
/// sixteen bytes, the last one possibly shorter.
pub open spec fn dump_text(address: nat, data: Seq<u8>) -> Seq<char>
    decreases data.len(),
{
    if data.len() == 0 {
        seq![]
    } else if data.len() <= 16 {
        dump_line(address, data)
    } else {
        dump_line(address, data.take(16)) + dump_text(address + 16, data.skip(16))
    }
}

/// Checks what the operating system reported for transfers into and out of
/// one debuggee, named by its process handle.
pub struct MemoryInspector {
    pub process_handle: isize,
}

fn push_dump_line(out: &mut Vec<char>, address: usize, chunk: &[u8])
    requires
        0 < chunk@.len() <= 16,
    ensures
        final(out)@ == old(out)@ + dump_line(address as nat, chunk@),
{
    push_hex(out, address as u64, 8);
    out.push(' ');
    out.push(' ');
    let ghost before = out@;
    let mut j: usize = 0;
    while j < chunk.len()
        invariant
            j <= chunk@.len() <= 16,
            out@ == before + hex_cells(chunk@.take(j as int)),
        decreases chunk@.len() - j,
    {
        push_hex(out, chunk[j] as u64, 2);
        if j % 2 == 1 {
            out.push(' ');
        }
        proof {
            let next = chunk@.take(j as int + 1);
            assert(next.drop_last() == chunk@.take(j as int));
            assert(next.last() == chunk@[j as int]);
        }
        j += 1;
    }
    assert(chunk@.take(chunk@.len() as int) == chunk@);
    if chunk.len() < BYTES_PER_LINE {
        let missing: usize = BYTES_PER_LINE - chunk.len();
        push_repeated(out, ' ', missing * 2 + (missing + 1) / 2);
    } else {
        assert(out@ == out@ + Seq::new(0, |i: int| ' '));
    }
    out.push(' ');
    out.push('|');
    let ghost middle = out@;
    let mut k: usize = 0;
    while k < chunk.len()
        invariant
            k <= chunk@.len(),
            out@ == middle + ascii_cells(chunk@).take(k as int),
        decreases chunk@.len() - k,
    {
        let b: u8 = chunk[k];
        if 0x21 <= b && b <= 0x7e {
            out.push(b as char);
        } else {
            out.push('.');
        }
        assert(ascii_cells(chunk@).take(k as int + 1) == ascii_cells(chunk@).take(k as int).push(
            ascii_cell(chunk@[k as int]),
        ));
        k += 1;
    }
    assert(ascii_cells(chunk@).take(chunk@.len() as int) == ascii_cells(chunk@));
    out.push('|');
    out.push('\n');
    assert(out@ =~= old(out)@ + dump_line(address as nat, chunk@));
}

impl MemoryInspector {
    pub fn new(process_handle: isize) -> (inspector: Self)
        ensures
            inspector.process_handle == process_handle,
    {
        MemoryInspector { process_handle }
    }

    /// Whether an access of `width` bytes is carried out in one step.
    pub fn is_atomic(width: usize) -> (atomic: bool)
        ensures
            atomic == (width <= ATOMIC_ACCESS_WIDTH),
    {
        width <= ATOMIC_ACCESS_WIDTH
    }

    /// Refuses an access wider than `MAX_ACCESS_WIDTH`, to be asked before
    /// the operating system is.
    pub fn check_width(width: usize) -> (r: Result<(), MemoryError>)
        ensures
            r == if width <= MAX_ACCESS_WIDTH {
                Ok::<(), MemoryError>(())
            } else {
                Err(MemoryError::UnsupportedWidth { width })
            },
    {
        if width <= MAX_ACCESS_WIDTH {
            Ok(())
        } else {
            Err(MemoryError::UnsupportedWidth { width })
        }
    }

    /// The value of `width` bytes read at `address`, given the bytes that
    /// the copy `transferred`: refused where the access is too wide, a read
    /// error where fewer than `width` bytes arrived, else the first `width`
    /// bytes.
    pub fn read_memory(&self, address: usize, width: usize, transferred: &[u8]) -> (r: Result<
        Vec<u8>,
        MemoryError,
    >)
        ensures
            width > MAX_ACCESS_WIDTH ==> r == Err::<Vec<u8>, MemoryError>(
                MemoryError::UnsupportedWidth { width },
            ),
            width <= MAX_ACCESS_WIDTH && transferred@.len() < width ==> r == Err::<
                Vec<u8>,
                MemoryError,
            >(MemoryError::ReadError { address }),
            width <= MAX_ACCESS_WIDTH && transferred@.len() >= width ==> r is Ok && r->Ok_0@
                == transferred@.take(width as int),
    {
        if width > MAX_ACCESS_WIDTH {
            return Err(MemoryError::UnsupportedWidth { width });
        }
        self.dump_memory(address, width, transferred)
    }

    /// Outcome of a write of `value` at `address`, of which the copy
    /// transferred `written` bytes: refused where the value is too wide, a
    /// write error where fewer bytes were written than the value has.
    pub fn write_memory(&self, address: usize, value: &[u8], written: usize) -> (r: Result<
        (),
        MemoryError,
    >)
        ensures
            r == if value@.len() > MAX_ACCESS_WIDTH {
                Err::<(), MemoryError>(MemoryError::UnsupportedWidth { width: value@.len() as usize })
            } else if written < value@.len() {
                Err(MemoryError::WriteError { address })
            } else {
                Ok(())
            },
    {
        if value.len() > MAX_ACCESS_WIDTH {
            Err(MemoryError::UnsupportedWidth { width: value.len() })
        } else if written < value.len() {
            Err(MemoryError::WriteError { address })
        } else {
            Ok(())
        }
    }

    /// The value that little-endian bytes stand for: `None` for more than
    /// eight bytes, whose value may not fit.
    pub fn decode_le(bytes: &[u8]) -> (r: Option<u64>)
        ensures
            r is Some <==> bytes@.len() <= 8,
            r is Some ==> r->0 == le_value(bytes@),
    {
        if bytes.len() > 8 {
            return None;
        }
        let mut value: u64 = 0;
        let mut i: usize = bytes.len();
        proof {
            assert(bytes@.skip(i as int) =~= Seq::<u8>::empty());
        }
        while i > 0
            invariant
                i <= bytes@.len() <= 8,
                value == le_value(bytes@.skip(i as int)),
            decreases i,
        {
            i -= 1;
            proof {
                let tail = bytes@.skip(i as int);
                assert(tail.drop_first() == bytes@.skip(i as int + 1));
                assert(tail[0] == bytes@[i as int]);
                lemma_le_value_bound(bytes@.skip(i as int + 1));
                let len = (bytes@.len() - i - 1) as nat;
                assert(vstd::arithmetic::power::pow(256, len) <= vstd::arithmetic::power::pow(256, 7))
                    by {
                    if len < 7 {
                        vstd::arithmetic::power::lemma_pow_strictly_increases(256, len, 7);
                    }
                }
                assert(vstd::arithmetic::power::pow(256, 7) == 0x100_0000_0000_0000int) by {
                    reveal_with_fuel(vstd::arithmetic::power::pow, 8);
                }
            }
            value = value * 256 + bytes[i] as u64;
        }
        assert(bytes@.skip(0) == bytes@);
        Some(value)
    }

    /// The text read at `address` with room for `max_length` bytes, given
    /// the bytes that the copy `transferred`.  The text ends before the
    /// first zero byte among the first `max_length` bytes, or fills them
    /// where there is none.  A read error where the bytes end before that,
    /// or where the text is not UTF-8.
    pub fn read_string(&self, address: usize, max_length: usize, transferred: &[u8]) -> (r: Result<
        String,
        MemoryError,
    >)
        ensures
            ({
                let window = transferred@.take(
                    if transferred@.len() < max_length {
                        transferred@.len() as int
                    } else {
                        max_length as int
                    },
                );
                let text = c_string_bytes(window);
                if (text.len() == window.len() && window.len() < max_length) || !valid_utf8(text) {
                    r == Err::<String, MemoryError>(MemoryError::ReadError { address })
                } else {
                    r is Ok && r->Ok_0@ == decode_utf8(text)
                }
            }),
    {
        let available: usize = if transferred.len() < max_length {
            transferred.len()
        } else {
            max_length
        };
        let window = vstd::slice::slice_subrange(transferred, 0, available);
        assert(window@ == transferred@.take(available as int));
        let text = until_nul(window);
        proof {
            lemma_nul_index(window@);
        }
        if text.len() == available && available < max_length {
            return Err(MemoryError::ReadError { address });
        }
        match string_from_utf8(&text) {
            Some(s) => Ok(s),
            None => Err(MemoryError::ReadError { address }),
        }
    }

    /// Outcome of a protection change: `previous` is the protection that the
    /// range had before, or `None` where the change was refused.
    pub fn protect_memory(&self, address: usize, previous: Option<u32>) -> (r: Result<
        u32,
        MemoryError,
    >)
        ensures
            r == match previous {
                Some(p) => Ok::<u32, MemoryError>(p),
                None => Err(MemoryError::ProtectionError { address }),
            },
    {
        match previous {
            Some(p) => Ok(p),
            None => Err(MemoryError::ProtectionError { address }),
        }
    }

    /// The addresses `start`, `start + w`, `start + 2w`, ... (with `w` the
    /// length of `value`) whose `w` bytes lie below `end`, can all be read in
    /// the snapshot and equal `value`, in rising order.  Addresses that
    /// cannot be read are passed over.  Empty for an empty `value`.
    pub fn scan_memory(
        &self,
        start_address: usize,
        end_address: usize,
        value: &[u8],
        snapshot: &MemorySnapshot,
    ) -> (matches: Vec<usize>)
        ensures
            forall|i: int, j: int| 0 <= i < j < matches@.len() ==> matches@[i] < matches@[j],
            forall|a: usize|
                matches@.contains(a) <==> (value@.len() > 0 && start_address <= a && a
                    + value@.len() <= end_address && (a - start_address) % (value@.len() as int)
                    == 0 && snapshot.holds(a as int, value@)),
    {
        let mut matches: Vec<usize> = Vec::new();
        let width: usize = value.len();
        if width == 0 {
            return matches;
        }
        let mut current: usize = start_address;
        assert(0int % (width as int) == 0) by (nonlinear_arith)
            requires
                width > 0,
        ;
        while current <= end_address && end_address - current >= width
            invariant
                width == value@.len(),
                width > 0,
                start_address <= current,
                (current - start_address) % (width as int) == 0,
                forall|i: int, j: int| 0 <= i < j < matches@.len() ==> matches@[i] < matches@[j],
                forall|i: int| 0 <= i < matches@.len() ==> matches@[i] < current,
                forall|a: usize|
                    matches@.contains(a) <==> (start_address <= a < current && a + width
                        <= end_address && (a - start_address) % (width as int) == 0
                        && snapshot.holds(a as int, value@)),
            decreases end_address - current,
        {
            let ghost before = matches@;
            let hit = snapshot.matches(current, value);
            if hit {
                matches.push(current);
            }
            let next: usize = current + width;
            proof {
                let w = width as int;
                let d = current - start_address;
                assert((d + w) % w == 0) by (nonlinear_arith)
                    requires
                        d % w == 0,
                        w > 0,
                        d >= 0,
                ;
                assert forall|a: usize|
                    matches@.contains(a) <==> (start_address <= a < next && a + width
                        <= end_address && (a - start_address) % w == 0 && snapshot.holds(
                        a as int,
                        value@,
                    )) by {
                    if hit {
                        assert(matches@ == before.push(current));
                        assert(matches@[before.len() as int] == current);
                        if matches@.contains(a) {
                            let i = choose|i: int| 0 <= i < matches@.len() && matches@[i] == a;
                            if i < before.len() {
                                assert(before[i] == a);
                                assert(before.contains(a));
                            }
                        }
                        if before.contains(a) {
                            let i = choose|i: int| 0 <= i < before.len() && before[i] == a;
                            assert(matches@[i] == a);
                        }
                    }
                    if current < a < next && (a - start_address) % w == 0 {
                        let e = a - start_address;
                        assert(false) by (nonlinear_arith)
                            requires
                                d % w == 0,
                                e % w == 0,
                                d < e < d + w,
                                w > 0,
                                d >= 0,
                        ;
                    }
                }
            }
            current = next;
        }
        matches
    }

    /// The `size` bytes of a dump at `address`, given the bytes that the
    /// copy `transferred`: a read error where fewer than `size` arrived.
    pub fn dump_memory(&self, address: usize, size: usize, transferred: &[u8]) -> (r: Result<
        Vec<u8>,
        MemoryError,
    >)
        ensures
            transferred@.len() < size ==> r == Err::<Vec<u8>, MemoryError>(
                MemoryError::ReadError { address },
            ),
            transferred@.len() >= size ==> r is Ok && r->Ok_0@ == transferred@.take(size as int),
    {
        if transferred.len() < size {
            return Err(MemoryError::ReadError { address });
        }
        let mut bytes: Vec<u8> = Vec::new();
        let mut i: usize = 0;
        while i < size
            invariant
                i <= size <= transferred@.len(),
                bytes@ == transferred@.take(i as int),
            decreases size - i,
        {
            bytes.push(transferred[i]);
            assert(transferred@.take(i as int + 1) == transferred@.take(i as int).push(
                transferred@[i as int],
            ));
            i += 1;
        }
        Ok(bytes)
    }

    /// The canonical rendering of `data`, which was read at `address`.
    pub fn format_memory_dump(&self, address: usize, data: &[u8]) -> (text: String)
        requires
            address + data@.len() <= usize::MAX,
        ensures
            text@ == dump_text(address as nat, data@),
    {
        let mut out: Vec<char> = Vec::new();
        let mut pos: usize = 0;
        assert(data@.skip(0) == data@);
        while pos < data.len()
            invariant
                pos <= data@.len(),
                address + data@.len() <= usize::MAX,
                out@ + dump_text((address + pos) as nat, data@.skip(pos as int)) == dump_text(
                    address as nat,
                    data@,
                ),
            decreases data@.len() - pos,
        {
            let remaining: usize = data.len() - pos;
            let take: usize = if remaining < BYTES_PER_LINE {
                remaining
            } else {
                BYTES_PER_LINE
            };
            let chunk = vstd::slice::slice_subrange(data, pos, pos + take);
            let ghost rest = data@.skip(pos as int);
            let ghost before = out@;
            proof {
                assert(chunk@ == rest.take(take as int));
                if remaining <= 16 {
                    assert(rest.take(take as int) == rest);
                } else {
                    assert(rest.skip(16) == data@.skip(pos as int + 16));
                }
            }
            push_dump_line(&mut out, address + pos, chunk);
            pos += take;
            proof {
                if remaining <= 16 {
                    assert(data@.skip(pos as int).len() == 0);
                    assert(dump_text((address + pos) as nat, data@.skip(pos as int)) == Seq::<
                        char,
                    >::empty());
                    assert(out@ + Seq::<char>::empty() == out@);
                } else {
                    assert(before + (dump_line((address + pos - 16) as nat, rest.take(16))
                        + dump_text((address + pos) as nat, rest.skip(16))) == (before + dump_line(
                        (address + pos - 16) as nat,
                        rest.take(16),
                    )) + dump_text((address + pos) as nat, rest.skip(16)));
                }
            }
        }
        assert(out@ + Seq::<char>::empty() == out@);
        string_from_chars(&out)
    }
}

} // verus!
