//! The extension list of a hello message.

use vstd::prelude::*;
use crate::wire::{be16, read_be16};

verus! {

/// The extensions that the inspector knows by name.
#[derive(Clone, Copy, Debug, PartialEq, Eq, Structural, Hash)]
pub enum ExtensionType {
    ServerName,
    MaxFragmentLength,
    StatusRequest,
    SupportedGroups,
    SignatureAlgorithms,
    UseSrtp,
    Heartbeat,
    ApplicationLayerProtocolNegotiation,
    SignedCertificateTimestamp,
    ClientCertificateType,
    ServerCertificateType,
    Padding,
    PreSharedKey,
    EarlyData,
    SupportedVersions,
    Cookie,
    PskKeyExchangeModes,
    CertificateAuthorities,
    OidFilters,
    PostHandshakeAuth,
    SignatureAlgorithmsCert,
    KeyShare,
}

#[derive(Clone, Copy, Debug, PartialEq, Eq, Structural)]
pub enum ExtensionParseError {
    /// Fewer than four bytes are left for an extension's type and length.
    NotEnoughData,
    /// An extension claims more bytes than the list holds.
    InvalidLength,
}

impl ExtensionType {
    /// The number that stands for the extension on the wire.
    pub open spec fn code(self) -> u16 {
        match self {
            ExtensionType::ServerName => 0,
            ExtensionType::MaxFragmentLength => 1,
            ExtensionType::StatusRequest => 5,
            ExtensionType::SupportedGroups => 10,
            ExtensionType::SignatureAlgorithms => 13,
            ExtensionType::UseSrtp => 14,
            ExtensionType::Heartbeat => 15,
            ExtensionType::ApplicationLayerProtocolNegotiation => 16,
            ExtensionType::SignedCertificateTimestamp => 18,
            ExtensionType::ClientCertificateType => 19,
            ExtensionType::ServerCertificateType => 20,
            ExtensionType::Padding => 21,
            ExtensionType::PreSharedKey => 41,
            ExtensionType::EarlyData => 42,
            ExtensionType::SupportedVersions => 43,
            ExtensionType::Cookie => 44,
            ExtensionType::PskKeyExchangeModes => 45,
            ExtensionType::CertificateAuthorities => 47,
            ExtensionType::OidFilters => 48,
            ExtensionType::PostHandshakeAuth => 49,
            ExtensionType::SignatureAlgorithmsCert => 50,
            ExtensionType::KeyShare => 51,
        }
    }

    pub fn to_u16(&self) -> (r: u16)
        ensures
            r == self.code(),
    {
        match self {
            ExtensionType::ServerName => 0,
            ExtensionType::MaxFragmentLength => 1,
            ExtensionType::StatusRequest => 5,
            ExtensionType::SupportedGroups => 10,
            ExtensionType::SignatureAlgorithms => 13,
            ExtensionType::UseSrtp => 14,
            ExtensionType::Heartbeat => 15,
            ExtensionType::ApplicationLayerProtocolNegotiation => 16,
            ExtensionType::SignedCertificateTimestamp => 18,
            ExtensionType::ClientCertificateType => 19,
            ExtensionType::ServerCertificateType => 20,
            ExtensionType::Padding => 21,
            ExtensionType::PreSharedKey => 41,
            ExtensionType::EarlyData => 42,
            ExtensionType::SupportedVersions => 43,
            ExtensionType::Cookie => 44,
            ExtensionType::PskKeyExchangeModes => 45,
            ExtensionType::CertificateAuthorities => 47,
            ExtensionType::OidFilters => 48,
            ExtensionType::PostHandshakeAuth => 49,
            ExtensionType::SignatureAlgorithmsCert => 50,
            ExtensionType::KeyShare => 51,
        }
    }
}

/// The value of the first extension of type `code` in the list `exts`.
///
/// The list is read from the front, one extension after another: two bytes
/// of type, two bytes of length, then the value. Reading stops at the first
/// extension of the type sought; what follows it is not looked at.
pub open spec fn find_extension(exts: Seq<u8>, code: u16) -> Result<
    Option<Seq<u8>>,
    ExtensionParseError,
>
    decreases exts.len(),
{
    if exts.len() == 0 {
        Ok(None)
    } else if exts.len() < 4 {
        Err(ExtensionParseError::NotEnoughData)
    } else {
        let end = 4 + be16(exts[2], exts[3]);
        if exts.len() < end {
            Err(ExtensionParseError::InvalidLength)
        } else if be16(exts[0], exts[1]) == code {
            Ok(Some(exts.subrange(4, end as int)))
        } else {
            find_extension(exts.skip(end as int), code)
        }
    }
}

/// Whether `exts` is a well-formed list: extensions back to back, none cut
/// short.
pub open spec fn well_formed_extensions(exts: Seq<u8>) -> bool
    decreases exts.len(),
{
    if exts.len() == 0 {
        true
    } else if exts.len() < 4 {
        false
    } else {
        let end = 4 + be16(exts[2], exts[3]);
        exts.len() >= end && well_formed_extensions(exts.skip(end as int))
    }
}

/// In a well-formed list every search ends without an error.
pub proof fn lemma_well_formed_never_fails(exts: Seq<u8>, code: u16)
    requires
        well_formed_extensions(exts),
    ensures
        find_extension(exts, code) is Ok,
    decreases exts.len(),
{
    if exts.len() >= 4 {
        let end = 4 + be16(exts[2], exts[3]);
        if be16(exts[0], exts[1]) != code {
            lemma_well_formed_never_fails(exts.skip(end as int), code);
        }
    }
}

/// Searches an extension list for the first extension of type `code`.
pub fn get_extension<'a>(exts: &'a [u8], code: u16) -> (r: Result<
    Option<&'a [u8]>,
    ExtensionParseError,
>)
    ensures
        match find_extension(exts@, code) {
            Ok(Some(v)) => r matches Ok(Some(s)) && s@ == v,
            Ok(None) => r matches Ok(None),
            Err(e) => r == Err::<Option<&[u8]>, ExtensionParseError>(e),
        },
{
    let mut offset: usize = 0;
    assert(exts@.skip(0) == exts@);
    while offset < exts.len()
        invariant
            offset <= exts.len(),
            find_extension(exts@, code) == find_extension(exts@.skip(offset as int), code),
        decreases exts.len() - offset,
    {
        let ghost rest = exts@.skip(offset as int);
        if exts.len() - offset < 4 {
            return Err(ExtensionParseError::NotEnoughData);
        }
        let ty = read_be16(exts[offset], exts[offset + 1]);
        let len = read_be16(exts[offset + 2], exts[offset + 3]) as usize;
        if exts.len() - offset - 4 < len {
            return Err(ExtensionParseError::InvalidLength);
        }
        let start = offset + 4;
        let end = start + len;
        if ty == code {
            let value = vstd::slice::slice_subrange(exts, start, end);
            assert(value@ == rest.subrange(4, 4 + len as int));
            return Ok(Some(value));
        }
        assert(rest.skip(4 + len as int) == exts@.skip(end as int));
        offset = end;
    }
    Ok(None)
}

} // verus!
