//! The records that follow the header: names in slots closed by a sentinel
//! byte, and games with their moves.
use crate::bounded::BoundedBytes;
use crate::error::{ReadError, WriteError};
use crate::header::{from_le16, le16, HEADER_SIZE};
use crate::slice::{as_chunks, window};
use vstd::prelude::*;

verus! {

/// The byte that ends a name in its slot: ASCII `'0'`.
pub const SENTINEL: u8 = 0x30;

/// `n` zero bytes.
pub open spec fn zeros(n: nat) -> Seq<u8> {
    Seq::new(n, |_j: int| 0u8)
}

/// The slots `ss`, one after another.
pub open spec fn concat(ss: Seq<Seq<u8>>) -> Seq<u8>
    decreases ss.len(),
{
    if ss.len() == 0 {
        Seq::empty()
    } else {
        concat(ss.drop_last()) + ss.last()
    }
}

/// Slots of one width, put one after another, are found again as the
/// windows of that width.
pub proof fn lemma_concat_windows(ss: Seq<Seq<u8>>, w: nat)
    requires
        forall|i: int| 0 <= i < ss.len() ==> (#[trigger] ss[i]).len() == w,
    ensures
        concat(ss).len() == ss.len() * w,
        forall|i: int| 0 <= i < ss.len() ==> #[trigger] window(concat(ss), w, i) == ss[i],
    decreases ss.len(),
{
    if ss.len() > 0 {
        let p = ss.drop_last();
        let n = ss.len();
        lemma_concat_windows(p, w);
        assert((n - 1) * w + w == n * w) by (nonlinear_arith);
        assert forall|i: int| 0 <= i < ss.len() implies #[trigger] window(concat(ss), w, i)
            == ss[i] by {
            if i < n - 1 {
                assert(i * w + w <= (n - 1) * w) by (nonlinear_arith)
                    requires
                        i < n - 1,
                ;
                assert(window(concat(ss), w, i) =~= window(concat(p), w, i));
            } else {
                assert(window(concat(ss), w, i) =~= ss.last());
            }
        }
    }
}

// ---------------------------------------------------------------- names

/// Whether `slot` holds the sentinel somewhere.
pub open spec fn has_sentinel(slot: Seq<u8>) -> bool {
    exists|j: int| 0 <= j < slot.len() && slot[j] == SENTINEL
}

/// Whether `name` is free of the sentinel, so that it can be stored.
pub open spec fn no_sentinel(name: Seq<u8>) -> bool {
    forall|j: int| 0 <= j < name.len() ==> name[j] != SENTINEL
}

/// Whether `name` is what `slot` holds: the bytes before its first sentinel.
pub open spec fn holds_name(slot: Seq<u8>, name: Seq<u8>) -> bool {
    &&& name.len() < slot.len()
    &&& slot[name.len() as int] == SENTINEL
    &&& slot.take(name.len() as int) == name
    &&& no_sentinel(name)
}

/// The slot of `width` bytes that stores `name`: the name, the sentinel, and
/// zeros.
pub open spec fn name_slot(name: Seq<u8>, width: nat) -> Seq<u8> {
    name + seq![SENTINEL] + zeros((width - name.len() - 1) as nat)
}

/// The bytes of the names of `v`.
pub open spec fn names_of<S: BoundedBytes>(v: Seq<S>) -> Seq<Seq<u8>> {
    v.map_values(|s: S| s.bytes())
}

/// The width of the slot of a name of type `S`.
pub open spec fn name_width<S: BoundedBytes>() -> nat {
    S::capacity() + 1
}

/// Whether `section` is a valid section of `count` names of type `S`: it has
/// exactly `count` slots, and each holds the sentinel.
pub open spec fn names_section_ok<S: BoundedBytes>(section: Seq<u8>, count: nat) -> bool {
    &&& section.len() == name_width::<S>() * count
    &&& forall|i: int| 0 <= i < count ==> has_sentinel(#[trigger] window(section, name_width::<S>(), i))
}

/// Whether `names` are the names that `section` holds, slot by slot.
pub open spec fn names_section_holds(section: Seq<u8>, width: nat, names: Seq<Seq<u8>>) -> bool {
    forall|i: int| 0 <= i < names.len() ==> holds_name(#[trigger] window(section, width, i), names[i])
}

/// The bytes of a section that stores `names` in slots of `width` bytes.
pub open spec fn names_section(names: Seq<Seq<u8>>, width: nat) -> Seq<u8> {
    concat(names.map_values(|n: Seq<u8>| name_slot(n, width)))
}

/// Reads the name in `slot`, or gives `None` where it has no sentinel.
fn read_name<S: BoundedBytes>(slot: &[u8]) -> (r: Option<S>)
    requires
        slot@.len() == name_width::<S>(),
    ensures
        r is Some <==> has_sentinel(slot@),
        r matches Some(v) ==> holds_name(slot@, v.bytes()),
{
    let mut k: usize = 0;
    while k < slot.len()
        invariant
            slot@.len() == name_width::<S>(),
            k <= slot@.len(),
            forall|j: int| 0 <= j < k ==> slot@[j] != SENTINEL,
        decreases slot@.len() - k,
    {
        if slot[k] == SENTINEL {
            assert(slot@[k as int] == SENTINEL);
            let prefix = &slot[0..k];
            assert(prefix@.len() == k);
            let name = S::from_bytes(prefix);
            assert(slot@.take(k as int) =~= slot@.subrange(0, k as int));
            return name;
        }
        k = k + 1;
    }
    None
}

/// Reads `count` names of type `S` from `bytes`, the section that follows
/// the header. It fails where the section is not exactly `count` slots long
/// or a slot has no sentinel.
pub fn read_names<S: BoundedBytes>(bytes: &[u8], count: u16) -> (r: Result<Vec<S>, ReadError>)
    ensures
        r is Ok <==> names_section_ok::<S>(bytes@, count as nat),
        r matches Ok(v) ==> v@.len() == count && names_section_holds(
            bytes@,
            name_width::<S>(),
            names_of(v@),
        ),
{
    let width = S::max_len() + 1;
    let chunks = match as_chunks(bytes, width, count as usize) {
        Some(chunks) => chunks,
        None => return Err(ReadError::InvalidFormat),
    };
    let mut names: Vec<S> = Vec::new();
    let mut i: usize = 0;
    while i < chunks.len()
        invariant
            width == name_width::<S>(),
            bytes@.len() == width * count,
            chunks@.len() == count,
            forall|j: int| 0 <= j < count ==> (#[trigger] chunks@[j])@ == window(bytes@, width as nat, j),
            i <= count,
            names@.len() == i,
            forall|j: int| 0 <= j < i ==> has_sentinel(#[trigger] window(bytes@, width as nat, j)),
            forall|j: int|
                0 <= j < i ==> holds_name(#[trigger] window(bytes@, width as nat, j), names@[j].bytes()),
        decreases count - i,
    {
        proof {
            assert(i * width + width <= width * count) by (nonlinear_arith)
                requires
                    i < count,
            ;
        }
        match read_name::<S>(chunks[i]) {
            Some(name) => names.push(name),
            None => return Err(ReadError::InvalidFormat),
        }
        i = i + 1;
    }
    proof {
        assert(names_section_holds(bytes@, width as nat, names_of(names@)));
    }
    Ok(names)
}

/// Writes `len` bytes at `at`: those of `src`, then zeros.
pub(crate) fn put_padded(buf: &mut [u8], at: usize, src: &[u8], len: usize)
    requires
        src@.len() <= len,
        at + len <= old(buf)@.len(),
    ensures
        final(buf)@ == old(buf)@.take(at as int) + src@ + zeros((len - src@.len()) as nat) + old(
            buf,
        )@.skip(at + len),
{
    let n: usize = buf.len();
    let ghost target = src@ + zeros((len - src@.len()) as nat);
    let mut k: usize = 0;
    while k < len
        invariant
            n == buf@.len(),
            k <= len,
            src@.len() <= len,
            at + len <= old(buf)@.len(),
            buf@.len() == old(buf)@.len(),
            forall|j: int| 0 <= j < at || at + len <= j < buf@.len() ==> buf@[j] == old(buf)@[j],
            target == src@ + zeros((len - src@.len()) as nat),
            forall|j: int| 0 <= j < k ==> #[trigger] buf@[at + j] == target[j],
        decreases len - k,
    {
        let ghost prev = buf@;
        let b: u8 = if k < src.len() {
            src[k]
        } else {
            0
        };
        buf[at + k] = b;
        assert(buf@ == prev.update(at + k, b));
        assert(b == target[k as int]);
        k = k + 1;
    }
    assert forall|j: int| at <= j < at + len implies buf@[j] == target[j - at] by {
        assert(buf@[at + (j - at)] == target[j - at]);
    }
    assert(buf@ =~= old(buf)@.take(at as int) + target + old(buf)@.skip(at + len));
}

/// Writes `names` after the header in `buf`. It fails where `count` is not
/// the number of names, or else where `buf` is not a header and `count`
/// slots long, leaving `buf` as it was.
pub fn write_names<S: BoundedBytes>(buf: &mut [u8], names: &[S], count: u16) -> (r: Result<
    (),
    WriteError,
>)
    ensures
        names@.len() != count ==> r == Err::<(), WriteError>(WriteError::TooManyElements),
        names@.len() == count && old(buf)@.len() != HEADER_SIZE + name_width::<S>() * count
            ==> r == Err::<(), WriteError>(WriteError::InvalidLength),
        r is Ok <==> names@.len() == count && old(buf)@.len() == HEADER_SIZE + name_width::<S>()
            * count,
        r is Ok ==> final(buf)@ == old(buf)@.take(HEADER_SIZE as int) + names_section(
            names_of(names@),
            name_width::<S>(),
        ),
        r is Err ==> final(buf)@ == old(buf)@,
{
    if names.len() != count as usize {
        return Err(WriteError::TooManyElements);
    }
    let width = S::max_len() + 1;
    assert(width * count <= 97 * 65535) by (nonlinear_arith)
        requires
            width <= 97,
            count <= 65535,
    ;
    let total = HEADER_SIZE + width * names.len();
    if buf.len() != total {
        return Err(WriteError::InvalidLength);
    }
    let ghost slots = names_of(names@).map_values(|n: Seq<u8>| name_slot(n, width as nat));
    let mut i: usize = 0;
    while i < names.len()
        invariant
            width == name_width::<S>(),
            names@.len() == count,
            total == HEADER_SIZE + width * count,
            slots == names_of(names@).map_values(|n: Seq<u8>| name_slot(n, width as nat)),
            i <= count,
            buf@.len() == total,
            buf@.take(HEADER_SIZE + i * width) == old(buf)@.take(HEADER_SIZE as int) + concat(
                slots.take(i as int),
            ),
        decreases count - i,
    {
        proof {
            assert(i * width + width <= count * width) by (nonlinear_arith)
                requires
                    i < count,
            ;
        }
        let at = HEADER_SIZE + i * width;
        let name = names[i].as_bytes();
        let ghost before = buf@;
        put_padded(buf, at, name, width);
        buf[at + name.len()] = SENTINEL;
        proof {
            let n = names@[i as int].bytes();
            assert(name@ == n);
            assert(slots[i as int] == name_slot(n, width as nat));
            assert(slots.take(i + 1).drop_last() =~= slots.take(i as int));
            assert(buf@.take(at + width) =~= before.take(at as int) + name_slot(n, width as nat));
            assert((i + 1) * width == i * width + width) by (nonlinear_arith);
        }
        i = i + 1;
    }
    proof {
        assert(slots.take(count as int) =~= slots);
        assert(width * count == count * width) by (nonlinear_arith);
        assert(buf@ =~= buf@.take(HEADER_SIZE + count * width));
    }
    Ok(())
}

} // verus!
