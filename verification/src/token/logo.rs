//! Checks of the logo that a token can carry.

use vstd::prelude::*;
use crate::error::ContractError;

verus! {

/// The largest logo accepted, in bytes.
pub const LOGO_SIZE_CAP: usize = 5120;

/// A logo: a link to one, or the image itself.
#[derive(Debug)]
pub enum Logo {
    Url(String),
    Embedded(EmbeddedLogo),
}

/// An image stored with the token.
#[derive(Debug)]
pub enum EmbeddedLogo {
    Svg(Vec<u8>),
    Png(Vec<u8>),
}

/// What is published of a logo: the link, or that one is stored.
#[derive(Debug)]
pub enum LogoInfo {
    Url(String),
    Embedded,
}

/// The bytes `<?xml ` that begin an XML preamble.
pub open spec fn xml_prefix() -> Seq<u8> {
    seq![0x3c, 0x3f, 0x78, 0x6d, 0x6c, 0x20]
}

/// The eight bytes that begin a PNG file.
pub open spec fn png_header() -> Seq<u8> {
    seq![0x89, 0x50, 0x4e, 0x47, 0x0d, 0x0a, 0x1a, 0x0a]
}

/// Whether `data` begins with `prefix`.
pub open spec fn starts_with(data: Seq<u8>, prefix: Seq<u8>) -> bool {
    prefix.len() <= data.len() && data.take(prefix.len() as int) == prefix
}

/// The place of the first `>` at or after `i`; the length of `data` where
/// there is none.
pub open spec fn first_closing(data: Seq<u8>, i: int) -> int
    decreases data.len() - i,
{
    if i < 0 || i >= data.len() {
        data.len() as int
    } else if data[i] == 0x3e {
        i
    } else {
        first_closing(data, i + 1)
    }
}

/// Whether `data` begins with an XML preamble: its first `>` ends a piece
/// that begins with `<?xml ` and ends with `?>`.
pub open spec fn has_xml_preamble(data: Seq<u8>) -> bool {
    let end = first_closing(data, 0);
    &&& end < data.len()
    &&& end >= 5
    &&& starts_with(data, xml_prefix())
    &&& data[end - 1] == 0x3f
}

/// The result of checking an SVG logo.
pub open spec fn xml_logo_checked(logo: Seq<u8>) -> Result<(), ContractError> {
    if !has_xml_preamble(logo) {
        Err(ContractError::InvalidXmlPreamble)
    } else if logo.len() > LOGO_SIZE_CAP {
        Err(ContractError::LogoTooBig)
    } else {
        Ok(())
    }
}

/// The result of checking a PNG logo.
pub open spec fn png_logo_checked(logo: Seq<u8>) -> Result<(), ContractError> {
    if logo.len() > LOGO_SIZE_CAP {
        Err(ContractError::LogoTooBig)
    } else if !starts_with(logo, png_header()) {
        Err(ContractError::InvalidPngHeader)
    } else {
        Ok(())
    }
}

/// The result of checking a logo: a link is taken as it is.
pub open spec fn logo_checked(logo: Logo) -> Result<(), ContractError> {
    match logo {
        Logo::Embedded(EmbeddedLogo::Svg(data)) => xml_logo_checked(data@),
        Logo::Embedded(EmbeddedLogo::Png(data)) => png_logo_checked(data@),
        Logo::Url(_) => Ok(()),
    }
}

/// Checks that `data` begins with an XML preamble.
pub fn verify_xml_preamble(data: &[u8]) -> (r: Result<(), ContractError>)
    ensures
        r == if has_xml_preamble(data@) {
            Ok::<(), ContractError>(())
        } else {
            Err(ContractError::InvalidXmlPreamble)
        },
{
    let mut end: usize = 0;
    while end < data.len() && data[end] != 0x3e
        invariant
            end <= data@.len(),
            first_closing(data@, 0) == first_closing(data@, end as int),
        decreases data@.len() - end,
    {
        end = end + 1;
    }
    if end >= data.len() || end < 5 {
        return Err(ContractError::InvalidXmlPreamble);
    }
    if !(data[0] == 0x3c && data[1] == 0x3f && data[2] == 0x78 && data[3] == 0x6d && data[4]
        == 0x6c && data[5] == 0x20) {
        proof {
            if starts_with(data@, xml_prefix()) {
                let head = data@.take(6);
                assert(head[0] == data@[0] && head[1] == data@[1] && head[2] == data@[2]
                    && head[3] == data@[3] && head[4] == data@[4] && head[5] == data@[5]);
            }
        }
        return Err(ContractError::InvalidXmlPreamble);
    }
    assert(data@.take(6) =~= xml_prefix());
    if data[end - 1] != 0x3f {
        return Err(ContractError::InvalidXmlPreamble);
    }
    Ok(())
}

/// Checks an SVG logo: it must begin with an XML preamble and must not
/// exceed the size allowed.
pub fn verify_xml_logo(logo: &[u8]) -> (r: Result<(), ContractError>)
    ensures
        r == xml_logo_checked(logo@),
{
    match verify_xml_preamble(logo) {
        Ok(()) => {},
        Err(e) => { return Err(e); },
    }
    if logo.len() > LOGO_SIZE_CAP {
        Err(ContractError::LogoTooBig)
    } else {
        Ok(())
    }
}

/// Checks a PNG logo: it must not exceed the size allowed and must begin
/// with the PNG header.
pub fn verify_png_logo(logo: &[u8]) -> (r: Result<(), ContractError>)
    ensures
        r == png_logo_checked(logo@),
{
    if logo.len() > LOGO_SIZE_CAP {
        return Err(ContractError::LogoTooBig);
    }
    if logo.len() < 8 || !(logo[0] == 0x89 && logo[1] == 0x50 && logo[2] == 0x4e && logo[3]
        == 0x47 && logo[4] == 0x0d && logo[5] == 0x0a && logo[6] == 0x1a && logo[7] == 0x0a) {
        proof {
            if starts_with(logo@, png_header()) {
                let head = logo@.take(8);
                assert(head[0] == logo@[0] && head[1] == logo@[1] && head[2] == logo@[2]
                    && head[3] == logo@[3] && head[4] == logo@[4] && head[5] == logo@[5]
                    && head[6] == logo@[6] && head[7] == logo@[7]);
            }
        }
        return Err(ContractError::InvalidPngHeader);
    }
    assert(logo@.take(8) =~= png_header());
    Ok(())
}

/// Checks a logo, whatever its kind.
pub fn verify_logo(logo: &Logo) -> (r: Result<(), ContractError>)
    ensures
        r == logo_checked(*logo),
{
    match logo {
        Logo::Embedded(EmbeddedLogo::Svg(data)) => verify_xml_logo(data.as_slice()),
        Logo::Embedded(EmbeddedLogo::Png(data)) => verify_png_logo(data.as_slice()),
        Logo::Url(_) => Ok(()),
    }
}

/// What is published of a logo.
pub fn logo_info(logo: Logo) -> (r: LogoInfo)
    ensures
        r == match logo {
            Logo::Url(url) => LogoInfo::Url(url),
            Logo::Embedded(_) => LogoInfo::Embedded,
        },
{
    match logo {
        Logo::Url(url) => LogoInfo::Url(url),
        Logo::Embedded(_) => LogoInfo::Embedded,
    }
}

} // verus!
