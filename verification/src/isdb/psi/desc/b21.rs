//! Descriptors defined by ARIB STD-B21.

use vstd::prelude::*;

use crate::isdb::lang::{lang_at, LangCode};
use crate::isdb::str::AribStr;
use crate::isdb::utils::{be16, be16_at, be32, be32_at, skip, tail};

use super::base::Descriptor;

verus! {

/// A sub-descriptor of a compatibility descriptor.
#[derive(Debug)]
pub struct SubDescriptor<'a> {
    /// Sub-descriptor type.
    pub sub_descriptor_type: u8,
    /// Additional information.
    pub additional_information: &'a [u8],
}

impl<'a> View for SubDescriptor<'a> {
    type V = (u8, Seq<u8>);

    open spec fn view(&self) -> (u8, Seq<u8>) {
        (self.sub_descriptor_type, self.additional_information@)
    }
}

/// An entry of the compatibility descriptors of a download content descriptor.
#[derive(Debug)]
pub struct CompatibilityDescriptor<'a> {
    /// Descriptor type.
    pub descriptor_type: u8,
    /// Specifier type.
    pub specifier_type: u8,
    /// Specifier data.
    pub specifier_data: [u8; 3],
    /// Model.
    pub model: u16,
    /// Version.
    pub version: u16,
    /// Sub-descriptors.
    pub sub_descriptors: Vec<SubDescriptor<'a>>,
}

/// What a [`CompatibilityDescriptor`] holds, as plain values.
pub type CompatibilityView = (u8, u8, Seq<u8>, u16, u16, Seq<(u8, Seq<u8>)>);

impl<'a> View for CompatibilityDescriptor<'a> {
    type V = CompatibilityView;

    open spec fn view(&self) -> CompatibilityView {
        (
            self.descriptor_type,
            self.specifier_type,
            self.specifier_data@,
            self.model,
            self.version,
            self.sub_descriptors@.map_values(|d: SubDescriptor<'a>| d@),
        )
    }
}

/// The first `n` sub-descriptors coded in `s` and what follows them, or `None`
/// when `s` runs short.
pub open spec fn sub_descriptors_of(s: Seq<u8>, n: nat) -> Option<(Seq<(u8, Seq<u8>)>, Seq<u8>)>
    decreases n,
{
    if n == 0 {
        Some((Seq::empty(), s))
    } else if s.len() < 2 || s.len() < 2 + s[1] {
        None
    } else {
        match sub_descriptors_of(tail(s, 2 + s[1]), (n - 1) as nat) {
            Some((v, rest)) => Some((seq![(s[0], s.subrange(2, 2 + s[1]))] + v, rest)),
            None => None,
        }
    }
}

/// The compatibility descriptor entry at the start of `s` and what follows it.
pub open spec fn compatibility_entry_of(s: Seq<u8>) -> Option<(CompatibilityView, Seq<u8>)> {
    if s.len() < 11 {
        None
    } else {
        match sub_descriptors_of(tail(s, 11), s[10] as nat) {
            Some((subs, rest)) => Some(
                ((s[0], s[2], s.subrange(3, 6), be16(s, 6), be16(s, 8), subs), rest),
            ),
            None => None,
        }
    }
}

/// The first `n` compatibility descriptor entries coded in `s`, or `None` when
/// `s` runs short.
pub open spec fn compatibility_entries_of(s: Seq<u8>, n: nat) -> Option<Seq<CompatibilityView>>
    decreases n,
{
    if n == 0 {
        Some(Seq::empty())
    } else {
        match compatibility_entry_of(s) {
            Some((e, rest)) => match compatibility_entries_of(rest, (n - 1) as nat) {
                Some(v) => Some(seq![e] + v),
                None => None,
            },
            None => None,
        }
    }
}

/// Whether `s` starts with a readable compatibility descriptor: a length
/// counting the two bytes of the count that follows it, a count, and entries.
pub open spec fn compatibility_readable(s: Seq<u8>) -> bool {
    &&& s.len() >= 4
    &&& be16(s, 0) >= 2
    &&& s.len() >= 2 + be16(s, 0)
    &&& compatibility_entries_of(s.subrange(4, 2 + be16(s, 0)), be16(s, 2) as nat) is Some
}

/// The entries of the compatibility descriptor at the start of `s`.
pub open spec fn compatibility_entries(s: Seq<u8>) -> Seq<CompatibilityView> {
    compatibility_entries_of(s.subrange(4, 2 + be16(s, 0)), be16(s, 2) as nat).unwrap()
}

/// What follows the compatibility descriptor at the start of `s`.
pub open spec fn compatibility_rest(s: Seq<u8>) -> Seq<u8> {
    tail(s, 2 + be16(s, 0))
}

fn read_sub_descriptors<'a>(data: &'a [u8], n: u8) -> (r: Option<(Vec<SubDescriptor<'a>>, &'a [u8])>)
    ensures
        r is Some <==> sub_descriptors_of(data@, n as nat) is Some,
        r matches Some((v, rest)) ==> sub_descriptors_of(data@, n as nat) == Some(
            (v@.map_values(|d: SubDescriptor<'a>| d@), rest@),
        ),
{
    let mut out: Vec<SubDescriptor<'a>> = Vec::new();
    let mut rest = data;
    let mut k: u8 = 0;
    while k < n
        invariant
            k <= n,
            sub_descriptors_of(data@, n as nat) == match sub_descriptors_of(rest@, (n - k) as nat) {
                Some((v, r)) => Some((out@.map_values(|d: SubDescriptor<'a>| d@) + v, r)),
                None => None::<(Seq<(u8, Seq<u8>)>, Seq<u8>)>,
            },
        decreases n - k,
    {
        if rest.len() < 2 {
            return None;
        }
        let l = rest[1] as usize;
        if rest.len() - 2 < l {
            return None;
        }
        let d = SubDescriptor { sub_descriptor_type: rest[0], additional_information: &rest[2..2 + l] };
        let next = skip(rest, 2 + l);
        let ghost old_view = out@.map_values(|d: SubDescriptor<'a>| d@);
        let ghost head = d@;
        out.push(d);
        proof {
            assert(out@.map_values(|d: SubDescriptor<'a>| d@) =~= old_view.push(head));
            if let Some((v, r)) = sub_descriptors_of(next@, (n - k - 1) as nat) {
                assert(old_view + (seq![head] + v) =~= old_view.push(head) + v);
            }
        }
        rest = next;
        k = k + 1;
    }
    proof {
        assert(out@.map_values(|d: SubDescriptor<'a>| d@) + Seq::<(u8, Seq<u8>)>::empty() =~= out@.map_values(
            |d: SubDescriptor<'a>| d@,
        ));
    }
    Some((out, rest))
}

fn read_compatibility_entry<'a>(data: &'a [u8]) -> (r: Option<(CompatibilityDescriptor<'a>, &'a [u8])>)
    ensures
        r is Some <==> compatibility_entry_of(data@) is Some,
        r matches Some((e, rest)) ==> compatibility_entry_of(data@) == Some((e@, rest@)),
{
    if data.len() < 11 {
        return None;
    }
    let (sub_descriptors, rest) = read_sub_descriptors(skip(data, 11), data[10])?;
    let specifier_data = [data[3], data[4], data[5]];
    assert(specifier_data@ =~= data@.subrange(3, 6));
    let e = CompatibilityDescriptor {
        descriptor_type: data[0],
        specifier_type: data[2],
        specifier_data,
        model: be16_at(data, 6),
        version: be16_at(data, 8),
        sub_descriptors,
    };
    Some((e, rest))
}

impl<'a> CompatibilityDescriptor<'a> {
    /// Reads a compatibility descriptor and returns its entries with the bytes
    /// that follow it.
    ///
    /// A length below two, which cannot count the entry count, makes the
    /// descriptor unreadable.
    pub fn read(data: &'a [u8]) -> (r: Option<(Vec<CompatibilityDescriptor<'a>>, &'a [u8])>)
        ensures
            r is Some <==> compatibility_readable(data@),
            r matches Some((v, rest)) ==> {
                &&& v@.map_values(|e: CompatibilityDescriptor<'a>| e@) == compatibility_entries(data@)
                &&& rest@ == compatibility_rest(data@)
            },
    {
        if data.len() < 4 {
            return None;
        }
        let length = be16_at(data, 0);
        let count = be16_at(data, 2);
        if length < 2 {
            return None;
        }
        let l = (length - 2) as usize;
        if data.len() - 4 < l {
            return None;
        }
        let body = &data[4..4 + l];
        let tail_bytes = skip(data, 4 + l);
        let mut rest = body;
        let mut out: Vec<CompatibilityDescriptor<'a>> = Vec::new();
        let mut k: u16 = 0;
        assert(body@ =~= data@.subrange(4, 2 + be16(data@, 0)));
        while k < count
            invariant
                k <= count,
                data@.len() >= 4,
                be16(data@, 0) >= 2,
                data@.len() >= 2 + be16(data@, 0),
                count == be16(data@, 2),
                body@ == data@.subrange(4, 2 + be16(data@, 0)),
                compatibility_entries_of(body@, count as nat) == match compatibility_entries_of(
                    rest@,
                    (count - k) as nat,
                ) {
                    Some(v) => Some(out@.map_values(|e: CompatibilityDescriptor<'a>| e@) + v),
                    None => None::<Seq<CompatibilityView>>,
                },
            decreases count - k,
        {
            let (e, next) = match read_compatibility_entry(rest) {
                Some(p) => p,
                None => {
                    return None;
                },
            };
            let ghost old_view = out@.map_values(|e: CompatibilityDescriptor<'a>| e@);
            let ghost head = e@;
            out.push(e);
            proof {
                assert(out@.map_values(|e: CompatibilityDescriptor<'a>| e@) =~= old_view.push(head));
                if let Some(v) = compatibility_entries_of(next@, (count - k - 1) as nat) {
                    assert(old_view + (seq![head] + v) =~= old_view.push(head) + v);
                }
            }
            rest = next;
            k = k + 1;
        }
        proof {
            assert(out@.map_values(|e: CompatibilityDescriptor<'a>| e@) + Seq::<CompatibilityView>::empty()
                =~= out@.map_values(|e: CompatibilityDescriptor<'a>| e@));
        }
        Some((out, tail_bytes))
    }
}

/// A module of a download content descriptor.
#[derive(Debug)]
pub struct ModuleInfo<'a> {
    /// Module identifier.
    pub module_id: u16,
    /// Size of the module in bytes.
    pub module_size: u32,
    /// Descriptors described in the DII.
    pub module_info: &'a [u8],
}

impl<'a> View for ModuleInfo<'a> {
    type V = (u16, u32, Seq<u8>);

    open spec fn view(&self) -> (u16, u32, Seq<u8>) {
        (self.module_id, self.module_size, self.module_info@)
    }
}

/// A service description of a download content descriptor.
#[derive(Debug)]
pub struct ServiceDescription<'a> {
    /// Language code.
    pub lang_code: LangCode,
    /// Service description.
    pub text: AribStr<'a>,
}

/// The first `n` modules coded in `s` and what follows them, or `None` when
/// `s` runs short.
pub open spec fn modules_of(s: Seq<u8>, n: nat) -> Option<(Seq<(u16, u32, Seq<u8>)>, Seq<u8>)>
    decreases n,
{
    if n == 0 {
        Some((Seq::empty(), s))
    } else if s.len() < 7 || s.len() < 7 + s[6] {
        None
    } else {
        match modules_of(tail(s, 7 + s[6]), (n - 1) as nat) {
            Some((v, rest)) => Some((seq![(be16(s, 0), be32(s, 2), s.subrange(7, 7 + s[6]))] + v, rest)),
            None => None,
        }
    }
}

/// What a download content descriptor holds, as plain values.
pub struct DownloadContentView {
    /// Reboot flag.
    pub reboot: bool,
    /// Add-on flag.
    pub add_on: bool,
    /// Component size.
    pub component_size: u32,
    /// Download identifier.
    pub download_id: u32,
    /// DII time-out value.
    pub time_out_value_dii: u32,
    /// Leak rate.
    pub leak_rate: u32,
    /// Component tag.
    pub component_tag: u8,
    /// Compatibility descriptor entries.
    pub compatibility_descriptors: Option<Seq<CompatibilityView>>,
    /// Modules.
    pub modules: Option<Seq<(u16, u32, Seq<u8>)>>,
    /// Private data.
    pub private_data: Seq<u8>,
    /// Service description: language code and text.
    pub service_descs: Option<(Seq<u8>, Seq<u8>)>,
}

/// The stage of a download content descriptor after its private data: the
/// private data, and the service description when `has_text`.
pub open spec fn dcd_tail_of(s: Seq<u8>, has_text: bool) -> Option<(Seq<u8>, Option<(Seq<u8>, Seq<u8>)>)> {
    if s.len() < 1 || s.len() < 1 + s[0] {
        None
    } else {
        let private_data = s.subrange(1, 1 + s[0]);
        let t = tail(s, 1 + s[0]);
        if !has_text {
            Some((private_data, None))
        } else if t.len() < 4 || t.len() < 4 + t[3] {
            None
        } else {
            Some((private_data, Some((t.subrange(0, 3), t.subrange(4, 4 + t[3])))))
        }
    }
}

/// The stage of a download content descriptor from its module information on.
pub open spec fn dcd_modules_of(s: Seq<u8>, has_modules: bool) -> Option<(Option<Seq<(u16, u32, Seq<u8>)>>, Seq<u8>)> {
    if !has_modules {
        Some((None, s))
    } else if s.len() < 2 {
        None
    } else {
        match modules_of(tail(s, 2), be16(s, 0) as nat) {
            Some((v, rest)) => Some((Some(v), rest)),
            None => None,
        }
    }
}

/// The download content descriptor coded in `s`, or `None` when it does not decode.
pub open spec fn download_content_of(s: Seq<u8>) -> Option<DownloadContentView> {
    if s.len() < 17 {
        None
    } else {
        let body = tail(s, 17);
        let compat_ok = s[0] & 0x20 == 0 || compatibility_readable(body);
        if !compat_ok {
            None
        } else {
            let after_compat = if s[0] & 0x20 != 0 {
                compatibility_rest(body)
            } else {
                body
            };
            match dcd_modules_of(after_compat, s[0] & 0x10 != 0) {
                None => None,
                Some((modules, after_modules)) => match dcd_tail_of(after_modules, s[0] & 0x08 != 0) {
                    None => None,
                    Some((private_data, service_descs)) => Some(
                        DownloadContentView {
                            reboot: s[0] & 0x80 != 0,
                            add_on: s[0] & 0x40 != 0,
                            component_size: be32(s, 1),
                            download_id: be32(s, 5),
                            time_out_value_dii: be32(s, 9),
                            leak_rate: be32(s, 13) >> 10,
                            component_tag: s[16],
                            compatibility_descriptors: if s[0] & 0x20 != 0 {
                                Some(compatibility_entries(body))
                            } else {
                                None
                            },
                            modules,
                            private_data,
                            service_descs,
                        },
                    ),
                },
            }
        }
    }
}

/// Download content descriptor.
#[derive(Debug)]
pub struct DownloadContentDescriptor<'a> {
    /// Reboot flag.
    pub reboot: bool,
    /// Add-on flag.
    pub add_on: bool,
    /// Component size.
    pub component_size: u32,
    /// Download identifier.
    pub download_id: u32,
    /// DII time-out value, in milliseconds.
    pub time_out_value_dii: u32,
    /// Leak rate, in units of 50 bytes/s.
    pub leak_rate: u32,
    /// Component tag.
    pub component_tag: u8,
    /// Compatibility descriptor entries.
    pub compatibility_descriptors: Option<Vec<CompatibilityDescriptor<'a>>>,
    /// Modules.
    pub modules: Option<Vec<ModuleInfo<'a>>>,
    /// Private data.
    pub private_data: &'a [u8],
    /// Service description.
    pub service_descs: Option<ServiceDescription<'a>>,
}

impl<'a> View for DownloadContentDescriptor<'a> {
    type V = DownloadContentView;

    open spec fn view(&self) -> DownloadContentView {
        DownloadContentView {
            reboot: self.reboot,
            add_on: self.add_on,
            component_size: self.component_size,
            download_id: self.download_id,
            time_out_value_dii: self.time_out_value_dii,
            leak_rate: self.leak_rate,
            component_tag: self.component_tag,
            compatibility_descriptors: match self.compatibility_descriptors {
                Some(v) => Some(v@.map_values(|e: CompatibilityDescriptor<'a>| e@)),
                None => None,
            },
            modules: match self.modules {
                Some(v) => Some(v@.map_values(|m: ModuleInfo<'a>| m@)),
                None => None,
            },
            private_data: self.private_data@,
            service_descs: match self.service_descs {
                Some(d) => Some((d.lang_code.bytes(), d.text@)),
                None => None,
            },
        }
    }
}

fn read_modules<'a>(data: &'a [u8], n: u16) -> (r: Option<(Vec<ModuleInfo<'a>>, &'a [u8])>)
    ensures
        r is Some <==> modules_of(data@, n as nat) is Some,
        r matches Some((v, rest)) ==> modules_of(data@, n as nat) == Some(
            (v@.map_values(|m: ModuleInfo<'a>| m@), rest@),
        ),
{
    let mut out: Vec<ModuleInfo<'a>> = Vec::new();
    let mut rest = data;
    let mut k: u16 = 0;
    while k < n
        invariant
            k <= n,
            modules_of(data@, n as nat) == match modules_of(rest@, (n - k) as nat) {
                Some((v, r)) => Some((out@.map_values(|m: ModuleInfo<'a>| m@) + v, r)),
                None => None::<(Seq<(u16, u32, Seq<u8>)>, Seq<u8>)>,
            },
        decreases n - k,
    {
        if rest.len() < 7 {
            return None;
        }
        let l = rest[6] as usize;
        if rest.len() - 7 < l {
            return None;
        }
        let m = ModuleInfo {
            module_id: be16_at(rest, 0),
            module_size: be32_at(rest, 2),
            module_info: &rest[7..7 + l],
        };
        let next = skip(rest, 7 + l);
        let ghost old_view = out@.map_values(|m: ModuleInfo<'a>| m@);
        let ghost head = m@;
        out.push(m);
        proof {
            assert(out@.map_values(|m: ModuleInfo<'a>| m@) =~= old_view.push(head));
            if let Some((v, r)) = modules_of(next@, (n - k - 1) as nat) {
                assert(old_view + (seq![head] + v) =~= old_view.push(head) + v);
            }
        }
        rest = next;
        k = k + 1;
    }
    proof {
        assert(out@.map_values(|m: ModuleInfo<'a>| m@) + Seq::<(u16, u32, Seq<u8>)>::empty() =~= out@.map_values(
            |m: ModuleInfo<'a>| m@,
        ));
    }
    Some((out, rest))
}

impl<'a> Descriptor<'a> for DownloadContentDescriptor<'a> {
    const TAG: u8 = 0xC9;

    open spec fn spec_readable(data: Seq<u8>) -> bool {
        download_content_of(data) is Some
    }

    open spec fn spec_decodes(data: Seq<u8>, d: Self) -> bool {
        download_content_of(data) == Some(d@)
    }

    fn read(data: &'a [u8]) -> (r: Option<DownloadContentDescriptor<'a>>) {
        if data.len() < 17 {
            return None;
        }
        let flags = data[0];
        let body = skip(data, 17);
        let (compatibility_descriptors, after_compat) = if flags & 0x20 != 0 {
            let (v, rem) = CompatibilityDescriptor::read(body)?;
            (Some(v), rem)
        } else {
            (None, body)
        };
        let (modules, after_modules) = if flags & 0x10 != 0 {
            if after_compat.len() < 2 {
                return None;
            }
            let n = be16_at(after_compat, 0);
            let (v, rem) = read_modules(skip(after_compat, 2), n)?;
            (Some(v), rem)
        } else {
            (None, after_compat)
        };
        if after_modules.len() < 1 {
            return None;
        }
        let pl = after_modules[0] as usize;
        if after_modules.len() - 1 < pl {
            return None;
        }
        let private_data = &after_modules[1..1 + pl];
        let t = skip(after_modules, 1 + pl);
        let service_descs = if flags & 0x08 != 0 {
            if t.len() < 4 {
                return None;
            }
            let tl = t[3] as usize;
            if t.len() - 4 < tl {
                return None;
            }
            let lang_code = LangCode::read_at(t, 0);
            assert(lang_code.bytes() =~= t@.subrange(0, 3));
            Some(
                ServiceDescription {
                    lang_code,
                    text: AribStr::from_bytes(&t[4..4 + tl]),
                },
            )
        } else {
            None
        };
        let d = DownloadContentDescriptor {
            reboot: flags & 0x80 != 0,
            add_on: flags & 0x40 != 0,
            component_size: be32_at(data, 1),
            download_id: be32_at(data, 5),
            time_out_value_dii: be32_at(data, 9),
            leak_rate: be32_at(data, 13) >> 10,
            component_tag: data[16],
            compatibility_descriptors,
            modules,
            private_data,
            service_descs,
        };
        assert(d@ == download_content_of(data@).unwrap());
        Some(d)
    }
}

} // verus!
