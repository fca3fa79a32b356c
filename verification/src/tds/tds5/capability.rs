//! Capabilities and security flags of a TDS 5 login.
use crate::bytes::copied;
use crate::error::{outcome, Error, ErrorView, Result};
use crate::tds::tds5::scan::{scan, Scan, Scanner};
use crate::text::{lemma_views_empty, lemma_views_push, views};
use vstd::prelude::*;

verus! {

broadcast use {lemma_views_push, lemma_views_empty};

/// The capabilities that a client announces. In a bitmap the last byte holds the first
/// eight capabilities.
#[derive(Debug)]
pub struct Capabilities {
    pub request: Vec<u8>,
    pub request_enabled: Vec<usize>,
    pub response: Vec<u8>,
    pub response_enabled: Vec<usize>,
    pub security: Vec<u8>,
    pub security_enabled: Vec<usize>,
    pub unknown_sections: Vec<CapabilitySection>,
}

/// A section of capabilities of an unknown or repeated type.
#[derive(Debug)]
pub struct CapabilitySection {
    pub section_type: u8,
    pub bytes: Vec<u8>,
}

/// The model of [`Capabilities`].
pub struct CapabilitiesView {
    pub request: Seq<u8>,
    pub request_enabled: Seq<usize>,
    pub response: Seq<u8>,
    pub response_enabled: Seq<usize>,
    pub security: Seq<u8>,
    pub security_enabled: Seq<usize>,
    pub unknown_sections: Seq<SectionView>,
}

/// The model of a [`CapabilitySection`].
pub struct SectionView {
    pub section_type: u8,
    pub bytes: Seq<u8>,
}

impl View for CapabilitySection {
    type V = SectionView;

    open spec fn view(&self) -> SectionView {
        SectionView { section_type: self.section_type, bytes: self.bytes@ }
    }
}

impl View for Capabilities {
    type V = CapabilitiesView;

    open spec fn view(&self) -> CapabilitiesView {
        CapabilitiesView {
            request: self.request@,
            request_enabled: self.request_enabled@,
            response: self.response@,
            response_enabled: self.response_enabled@,
            security: self.security@,
            security_enabled: self.security_enabled@,
            unknown_sections: views(self.unknown_sections@),
        }
    }
}

/// No capabilities at all.
pub open spec fn no_capabilities() -> CapabilitiesView {
    CapabilitiesView {
        request: seq![],
        request_enabled: seq![],
        response: seq![],
        response_enabled: seq![],
        security: seq![],
        security_enabled: seq![],
        unknown_sections: seq![],
    }
}

impl Default for Capabilities {
    fn default() -> (none: Self)
        ensures
            none@ == no_capabilities(),
    {
        Capabilities {
            request: Vec::new(),
            request_enabled: Vec::new(),
            response: Vec::new(),
            response_enabled: Vec::new(),
            security: Vec::new(),
            security_enabled: Vec::new(),
            unknown_sections: Vec::new(),
        }
    }
}

/// Whether a bitmap holds a capability.
pub open spec fn enabled(bitmap: Seq<u8>, capability: int) -> bool {
    capability / 8 < bitmap.len() && bitmap[bitmap.len() - 1 - capability / 8] & (1u8 << (
    (capability % 8) as u8)) != 0
}

/// The capabilities below `n` that a bitmap holds, in order.
pub open spec fn enabled_below(bitmap: Seq<u8>, n: nat) -> Seq<usize>
    decreases n,
{
    if n == 0 {
        seq![]
    } else if enabled(bitmap, n - 1) {
        enabled_below(bitmap, (n - 1) as nat).push((n - 1) as usize)
    } else {
        enabled_below(bitmap, (n - 1) as nat)
    }
}

fn capability_enabled(bitmap: &[u8], capability: usize) -> (yes: bool)
    ensures
        yes == enabled(bitmap@, capability as int),
{
    let from_end: usize = capability / 8;
    if from_end >= bitmap.len() {
        return false;
    }
    let byte: u8 = bitmap[bitmap.len() - 1 - from_end];
    byte & (1u8 << ((capability % 8) as u8)) != 0
}

fn enabled_capabilities(bitmap: &[u8]) -> (list: Vec<usize>)
    requires
        bitmap.len() <= 255,
    ensures
        list@ == enabled_below(bitmap@, (8 * bitmap@.len()) as nat),
{
    let mut list: Vec<usize> = Vec::new();
    let mut i: usize = 0;
    while i < bitmap.len() * 8
        invariant
            bitmap.len() <= 255,
            i <= bitmap.len() * 8,
            list@ == enabled_below(bitmap@, i as nat),
        decreases bitmap.len() * 8 - i,
    {
        if capability_enabled(bitmap, i) {
            list.push(i);
        }
        i += 1;
    }
    list
}

impl Capabilities {
    /// Whether the client announces command encryption, which tells clients of the
    /// nonce-bound password exchange with a session key from older ones.
    pub fn supports_command_encryption(&self) -> (yes: bool)
        ensures
            yes == enabled(self@.request, 106),
    {
        capability_enabled(self.request.as_slice(), 106)
    }
}

impl CapabilitiesView {
    /// The capabilities with one section more. Only the first non-empty section of each
    /// known type counts.
    pub open spec fn with_section(self, section_type: u8, bytes: Seq<u8>) -> CapabilitiesView {
        let list = enabled_below(bytes, (8 * bytes.len()) as nat);
        if section_type == 1 && self.request.len() == 0 {
            CapabilitiesView { request: bytes, request_enabled: list, ..self }
        } else if section_type == 2 && self.response.len() == 0 {
            CapabilitiesView { response: bytes, response_enabled: list, ..self }
        } else if section_type == 3 && self.security.len() == 0 {
            CapabilitiesView { security: bytes, security_enabled: list, ..self }
        } else {
            CapabilitiesView {
                unknown_sections: self.unknown_sections.push(SectionView { section_type, bytes }),
                ..self
            }
        }
    }

    /// The capabilities with the sections from `c` on.
    pub open spec fn with_sections(self, c: Scan) -> core::result::Result<
        CapabilitiesView,
        ErrorView,
    >
        decreases c.left(),
    {
        if c.done() {
            Ok(self)
        } else {
            match c.u8() {
                Err(e) => Err(e),
                Ok((section_type, c)) => match c.u8() {
                    Err(e) => Err(e),
                    Ok((n, c)) => match c.take(n as int) {
                        Err(e) => Err(e),
                        Ok((bytes, c)) => {
                            let more = self.with_section(section_type, bytes);
                            if more.unknown_sections.len() > 256 {
                                Err(ErrorView::Limit("TDS 5 capability section count"@))
                            } else {
                                more.with_sections(c)
                            }
                        },
                    },
                },
            }
        }
    }
}

/// The capabilities in the body of a capability token.
pub fn parse_capabilities(input: &[u8]) -> (result: Result<Capabilities>)
    ensures
        outcome(result) == no_capabilities().with_sections(scan(input@)),
{
    let mut cursor = Scanner::new(input);
    let mut found = Capabilities::default();
    while !cursor.done()
        invariant
            no_capabilities().with_sections(scan(input@)) == found@.with_sections(cursor@),
        decreases cursor@.left(),
    {
        let section_type: u8 = cursor.u8()?;
        let length: usize = cursor.u8()? as usize;
        let bytes = copied(cursor.take(length)?);
        let ghost before = found@;
        if section_type == 1 && found.request.len() == 0 {
            found.request_enabled = enabled_capabilities(bytes.as_slice());
            found.request = bytes;
        } else if section_type == 2 && found.response.len() == 0 {
            found.response_enabled = enabled_capabilities(bytes.as_slice());
            found.response = bytes;
        } else if section_type == 3 && found.security.len() == 0 {
            found.security_enabled = enabled_capabilities(bytes.as_slice());
            found.security = bytes;
        } else {
            found.unknown_sections.push(CapabilitySection { section_type, bytes });
        }
        if found.unknown_sections.len() > 256 {
            return Err(Error::Limit("TDS 5 capability section count"));
        }
    }
    Ok(found)
}

// ---------------------------------------------------------------------------
// Flags

/// A name, where a condition holds.
pub open spec fn only_if(condition: bool, name: Seq<char>) -> Seq<Seq<char>> {
    if condition {
        seq![name]
    } else {
        seq![]
    }
}

/// Appends a name, where a condition holds.
pub fn push_if(list: &mut Vec<&'static str>, condition: bool, name: &'static str)
    ensures
        views(final(list)@) == views(old(list)@) + only_if(condition, name@),
{
    if condition {
        list.push(name);
    }
    assert(views(list@) =~= views(old(list)@) + only_if(condition, name@));
}

/// The security modes of a login by its flags. The reserved bit `0x40` names none.
pub open spec fn security_modes(flags: u8) -> Seq<Seq<char>> {
    only_if(flags & 0x01 != 0, "encrypted_login_v1"@) + only_if(
        flags & 0x02 != 0,
        "challenge_response"@,
    ) + only_if(flags & 0x04 != 0, "security_labels"@) + only_if(
        flags & 0x08 != 0,
        "application_defined_security"@,
    ) + only_if(flags & 0x10 != 0, "secure_session"@) + only_if(
        flags & 0x20 != 0,
        "encrypted_login_v2"@,
    ) + only_if(flags & 0x80 != 0, "encrypted_login_v3_or_v4"@)
}

/// The security modes of a login by its flags. Callers keep the raw byte as well, so
/// that the reserved bit does not disappear.
pub fn login_security_modes(flags: u8) -> (modes: Vec<&'static str>)
    ensures
        views(modes@) == security_modes(flags),
{
    let mut modes: Vec<&'static str> = Vec::new();
    push_if(&mut modes, flags & 0x01 != 0, "encrypted_login_v1");
    assert(views(modes@) =~= only_if(flags & 0x01 != 0, "encrypted_login_v1"@));
    push_if(&mut modes, flags & 0x02 != 0, "challenge_response");
    push_if(&mut modes, flags & 0x04 != 0, "security_labels");
    push_if(&mut modes, flags & 0x08 != 0, "application_defined_security");
    push_if(&mut modes, flags & 0x10 != 0, "secure_session");
    push_if(&mut modes, flags & 0x20 != 0, "encrypted_login_v2");
    push_if(&mut modes, flags & 0x80 != 0, "encrypted_login_v3_or_v4");
    modes
}

} // verus!
