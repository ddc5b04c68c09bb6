//! The descriptor trait and undecoded descriptor loops.

use vstd::prelude::*;

use crate::isdb::utils::{be16, be16_at, split_at_checked, tail};

verus! {

/// A descriptor that can be decoded from its payload.
pub trait Descriptor<'a>: Sized {
    /// The descriptor's tag.
    const TAG: u8;

    /// Whether `data` is a payload that decodes.
    spec fn spec_readable(data: Seq<u8>) -> bool;

    /// Whether `d` is what `data` decodes to.
    spec fn spec_decodes(data: Seq<u8>, d: Self) -> bool;

    /// Reads the descriptor from `data`, its payload without tag and length.
    fn read(data: &'a [u8]) -> (r: Option<Self>)
        ensures
            r is Some <==> Self::spec_readable(data@),
            r matches Some(d) ==> Self::spec_decodes(data@, d),
    ;
}

/// A descriptor that has not been decoded.
#[derive(Debug, Clone, Copy)]
pub struct RawDescriptor<'a> {
    /// The descriptor's tag.
    pub tag: u8,
    /// The descriptor's payload.
    pub data: &'a [u8],
}

/// Whether the descriptor loop `s` starts with a complete descriptor.
pub open spec fn has_head(s: Seq<u8>) -> bool {
    s.len() >= 2 && 2 + s[1] <= s.len()
}

/// The length in bytes of the first descriptor of `s`, header included.
pub open spec fn head_len(s: Seq<u8>) -> int {
    2 + s[1]
}

/// The complete descriptors at the start of `s`, as tag and payload, up to the
/// first one that is cut short.
pub open spec fn descriptors_of(s: Seq<u8>) -> Seq<(u8, Seq<u8>)>
    decreases s.len(),
{
    if has_head(s) {
        seq![(s[0], s.subrange(2, head_len(s)))] + descriptors_of(tail(s, head_len(s)))
    } else {
        Seq::empty()
    }
}

/// The payload of the first descriptor of `list` whose tag is `tag`.
pub open spec fn first_with_tag(list: Seq<(u8, Seq<u8>)>, tag: u8) -> Option<Seq<u8>>
    decreases list.len(),
{
    if list.len() == 0 {
        None
    } else if list[0].0 == tag {
        Some(list[0].1)
    } else {
        first_with_tag(list.subrange(1, list.len() as int), tag)
    }
}

/// A block of descriptors, decoded only on request.
#[derive(Debug, Clone, Copy, PartialEq, Eq)]
pub struct DescriptorBlock<'a>(&'a [u8]);

impl<'a> View for DescriptorBlock<'a> {
    type V = Seq<u8>;

    closed spec fn view(&self) -> Seq<u8> {
        self.0@
    }
}

/// The 12-bit descriptor loop length stored at `s[i]`.
pub open spec fn loop_len_at(s: Seq<u8>, i: int) -> u16 {
    be16(s, i) & 0x0FFF
}

/// Whether `s` starts with a 12-bit length followed by that many bytes.
pub open spec fn block_readable(s: Seq<u8>) -> bool {
    s.len() >= 2 && 2 + loop_len_at(s, 0) <= s.len()
}

/// The descriptor bytes of a length-prefixed block at the start of `s`.
pub open spec fn block_bytes(s: Seq<u8>) -> Seq<u8> {
    s.subrange(2, 2 + loop_len_at(s, 0))
}

/// What follows a length-prefixed block at the start of `s`.
pub open spec fn block_rest(s: Seq<u8>) -> Seq<u8> {
    tail(s, 2 + loop_len_at(s, 0))
}

impl<'a> DescriptorBlock<'a> {
    /// Takes `length` bytes of `data` as a descriptor block, and returns it with the rest.
    ///
    /// Returns `None` when `data` is shorter than `length`.
    pub fn read_with_len(data: &'a [u8], length: u16) -> (r: Option<(DescriptorBlock<'a>, &'a [u8])>)
        ensures
            r is Some <==> length <= data@.len(),
            r matches Some((b, rest)) ==> b@ == data@.subrange(0, length as int) && rest@ == tail(
                data@,
                length as int,
            ),
    {
        match split_at_checked(data, length as usize) {
            Some((block, rem)) => Some((DescriptorBlock(block), rem)),
            None => None,
        }
    }

    /// Reads a block preceded by its 12-bit length, and returns it with the rest.
    ///
    /// Returns `None` when `data` is too short.
    pub fn read(data: &'a [u8]) -> (r: Option<(DescriptorBlock<'a>, &'a [u8])>)
        ensures
            r is Some <==> block_readable(data@),
            r matches Some((b, rest)) ==> b@ == block_bytes(data@) && rest@ == block_rest(data@),
    {
        if data.len() < 2 {
            return None;
        }
        let length = be16_at(data, 0) & 0x0FFF;
        let (_, rem) = data.split_at(2);
        match DescriptorBlock::read_with_len(rem, length) {
            Some((b, rest)) => {
                assert(b@ =~= block_bytes(data@));
                assert(rest@ =~= block_rest(data@));
                Some((b, rest))
            },
            None => None,
        }
    }

    /// The raw bytes of the block.
    pub fn as_bytes(&self) -> (r: &'a [u8])
        ensures
            r@ == self@,
    {
        self.0
    }

    /// An iterator over the descriptors of the block.
    pub fn iter(&self) -> (r: DescriptorIter<'a>)
        ensures
            r@ == self@,
    {
        DescriptorIter(self.0)
    }

    /// Decodes the first descriptor whose tag is `T::TAG`.
    ///
    /// Returns `None` when there is none, or when that one does not decode.
    pub fn get<T: Descriptor<'a>>(&self) -> (r: Option<T>)
        ensures
            match first_with_tag(descriptors_of(self@), T::TAG) {
                None => r is None,
                Some(p) => (r is Some <==> T::spec_readable(p)) && (r matches Some(d)
                    ==> T::spec_decodes(p, d)),
            },
    {
        let mut it = self.iter();
        loop
            invariant
                first_with_tag(descriptors_of(self@), T::TAG) == first_with_tag(
                    descriptors_of(it@),
                    T::TAG,
                ),
            decreases it@.len(),
        {
            let ghost before = it@;
            match it.next() {
                None => {
                    return None;
                },
                Some(d) => {
                    proof {
                        assert(descriptors_of(before).subrange(1, descriptors_of(before).len() as int)
                            =~= descriptors_of(it@));
                    }
                    if d.tag == T::TAG {
                        return T::read(d.data);
                    }
                },
            }
        }
    }

    /// Decodes every descriptor whose tag is `T::TAG`, skipping those that do not decode.
    pub fn get_all<T: Descriptor<'a>>(&self) -> (r: Vec<T>)
        ensures
            r@.len() == decodable_payloads::<T>(descriptors_of(self@)).len(),
            forall|k: int|
                0 <= k < r@.len() ==> T::spec_decodes(
                    #[trigger] decodable_payloads::<T>(descriptors_of(self@))[k],
                    r@[k],
                ),
    {
        let mut out: Vec<T> = Vec::new();
        let mut it = self.iter();
        let ghost mut done: Seq<Seq<u8>> = Seq::empty();
        loop
            invariant
                decodable_payloads::<T>(descriptors_of(self@)) == done
                    + decodable_payloads::<T>(descriptors_of(it@)),
                out@.len() == done.len(),
                forall|k: int| 0 <= k < out@.len() ==> T::spec_decodes(#[trigger] done[k], out@[k]),
            decreases it@.len(),
        {
            let ghost before = it@;
            match it.next() {
                None => {
                    assert(done + Seq::<Seq<u8>>::empty() =~= done);
                    return out;
                },
                Some(d) => {
                    proof {
                        assert(descriptors_of(before).subrange(1, descriptors_of(before).len() as int)
                            =~= descriptors_of(it@));
                    }
                    if d.tag == T::TAG {
                        if let Some(v) = T::read(d.data) {
                            proof {
                                let rest = decodable_payloads::<T>(descriptors_of(it@));
                                assert(done + (seq![d.data@] + rest) =~= done.push(d.data@) + rest);
                                done = done.push(d.data@);
                            }
                            out.push(v);
                        }
                    }
                },
            }
        }
    }
}

/// The payloads of the descriptors of `list` that carry `T::TAG` and decode,
/// in order.
pub open spec fn decodable_payloads<'a, T: Descriptor<'a>>(list: Seq<(u8, Seq<u8>)>) -> Seq<Seq<u8>>
    decreases list.len(),
{
    if list.len() == 0 {
        Seq::empty()
    } else {
        let rest = decodable_payloads::<T>(list.subrange(1, list.len() as int));
        if list[0].0 == T::TAG && T::spec_readable(list[0].1) {
            seq![list[0].1] + rest
        } else {
            rest
        }
    }
}

/// The first descriptor of `list` with `T::TAG`, when it decodes, is the
/// first of those that carry `T::TAG` and decode.
proof fn lemma_first_decodable<'a, T: Descriptor<'a>>(list: Seq<(u8, Seq<u8>)>)
    ensures
        first_with_tag(list, T::TAG) matches Some(p) ==> (T::spec_readable(p) ==> (
        decodable_payloads::<T>(list).len() > 0 && decodable_payloads::<T>(list)[0] == p)),
    decreases list.len(),
{
    if list.len() > 0 && list[0].0 != T::TAG {
        lemma_first_decodable::<T>(list.subrange(1, list.len() as int));
    }
}

/// When [`DescriptorBlock::get`] decodes a descriptor, [`DescriptorBlock::get_all`]
/// decodes the same payload first: the first descriptor with `T::TAG`, when it
/// decodes, is the first payload that `get_all` decodes.
pub proof fn law_get_is_first_of_get_all<'a, T: Descriptor<'a>>(block: DescriptorBlock<'a>)
    ensures
        first_with_tag(descriptors_of(block@), T::TAG) matches Some(p) ==> (T::spec_readable(p)
            ==> (decodable_payloads::<T>(descriptors_of(block@)).len() > 0
            && decodable_payloads::<T>(descriptors_of(block@))[0] == p)),
{
    lemma_first_decodable::<T>(descriptors_of(block@));
}

/// An iterator over the descriptors of a [`DescriptorBlock`].
#[derive(Debug, Clone, Copy)]
pub struct DescriptorIter<'a>(&'a [u8]);

impl<'a> View for DescriptorIter<'a> {
    type V = Seq<u8>;

    closed spec fn view(&self) -> Seq<u8> {
        self.0@
    }
}

impl<'a> DescriptorIter<'a> {
    /// Returns the next complete descriptor, or `None` once the rest is empty or cut short.
    pub fn next(&mut self) -> (r: Option<RawDescriptor<'a>>)
        ensures
            r is Some <==> has_head(old(self)@),
            r matches Some(d) ==> {
                &&& d.tag == old(self)@[0]
                &&& d.data@ == old(self)@.subrange(2, head_len(old(self)@))
                &&& final(self)@ == tail(old(self)@, head_len(old(self)@))
            },
            r is None ==> final(self)@ == old(self)@,
    {
        if self.0.len() < 2 {
            return None;
        }
        let tag = self.0[0];
        let length = self.0[1];
        let (_, rem) = self.0.split_at(2);
        match split_at_checked(rem, length as usize) {
            None => None,
            Some((data, rest)) => {
                assert(data@ =~= old(self)@.subrange(2, head_len(old(self)@)));
                assert(rest@ =~= tail(old(self)@, head_len(old(self)@)));
                self.0 = rest;
                Some(RawDescriptor { tag, data })
            },
        }
    }

    /// The remaining descriptor bytes.
    pub fn as_bytes(&self) -> (r: &'a [u8])
        ensures
            r@ == self@,
    {
        self.0
    }
}

/// Successive [`DescriptorIter::next`] calls give the descriptors of
/// [`descriptors_of`] in order. When `next` gives a descriptor from the bytes
/// `s`, it is the first of `descriptors_of(s)` and the bytes left hold the
/// others; when it gives `None`, `descriptors_of(s)` is empty, and since
/// `next` then leaves the bytes as they were, it keeps giving `None`.
pub proof fn law_descriptor_iter_order(s: Seq<u8>)
    ensures
        has_head(s) ==> descriptors_of(s).len() > 0 && descriptors_of(s)[0] == (
            s[0],
            s.subrange(2, head_len(s)),
        ) && descriptors_of(tail(s, head_len(s))) == descriptors_of(s).drop_first(),
        !has_head(s) ==> descriptors_of(s).len() == 0,
{
    if has_head(s) {
        assert(descriptors_of(s).drop_first() =~= descriptors_of(tail(s, head_len(s))));
    }
}

/// Whether the descriptor `d`, as tag and payload, carries `T::TAG` and
/// decodes as `T`.
pub open spec fn decodes_as<'a, T: Descriptor<'a>>(d: (u8, Seq<u8>)) -> bool {
    d.0 == T::TAG && T::spec_readable(d.1)
}

proof fn lemma_decodable_is_filter<'a, T: Descriptor<'a>>(list: Seq<(u8, Seq<u8>)>)
    ensures
        decodable_payloads::<T>(list) == list.filter(|d: (u8, Seq<u8>)| decodes_as::<T>(d)).map_values(
            |d: (u8, Seq<u8>)| d.1,
        ),
    decreases list.len(),
{
    let pred = |d: (u8, Seq<u8>)| decodes_as::<T>(d);
    if list.len() == 0 {
        reveal(Seq::filter);
        assert(list.filter(pred) =~= Seq::<(u8, Seq<u8>)>::empty());
        assert(list.filter(pred).map_values(|d: (u8, Seq<u8>)| d.1) =~= Seq::<Seq<u8>>::empty());
    } else {
        let head = seq![list[0]];
        let rest = list.subrange(1, list.len() as int);
        lemma_decodable_is_filter::<T>(rest);
        assert(list =~= head + rest);
        Seq::filter_distributes_over_add(head, rest, pred);
        reveal_with_fuel(Seq::filter, 2);
        assert(head.drop_last() =~= Seq::<(u8, Seq<u8>)>::empty());
        let fr = rest.filter(pred);
        if pred(list[0]) {
            assert(head.filter(pred) =~= head);
            assert((head + fr).map_values(|d: (u8, Seq<u8>)| d.1) =~= seq![list[0].1]
                + fr.map_values(|d: (u8, Seq<u8>)| d.1));
        } else {
            assert(head.filter(pred) =~= Seq::<(u8, Seq<u8>)>::empty());
            assert(Seq::<(u8, Seq<u8>)>::empty() + fr =~= fr);
        }
    }
}

/// [`DescriptorBlock::get_all`] decodes every descriptor of the block that
/// carries `T::TAG` and decodes, in order, and no other: the payloads it
/// decodes are those of the descriptors of the block kept by that test, so
/// it returns as many values as the block holds such descriptors.
pub proof fn law_get_all_takes_every_match<'a, T: Descriptor<'a>>(block: DescriptorBlock<'a>)
    ensures
        decodable_payloads::<T>(descriptors_of(block@)) == descriptors_of(block@).filter(
            |d: (u8, Seq<u8>)| decodes_as::<T>(d),
        ).map_values(|d: (u8, Seq<u8>)| d.1),
        decodable_payloads::<T>(descriptors_of(block@)).len() == descriptors_of(block@).filter(
            |d: (u8, Seq<u8>)| decodes_as::<T>(d),
        ).len(),
{
    lemma_decodable_is_filter::<T>(descriptors_of(block@));
}

} // verus!
