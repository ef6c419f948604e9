use vstd::prelude::*;

use crate::decimal::{Decimal, DECIMAL_FRACTIONAL};
use crate::error::GovError;
use vstd::string::StringSliceAdditionalSpecFns;

verus! {

pub const MIN_TITLE_LENGTH: usize = 4;

pub const MAX_TITLE_LENGTH: usize = 64;

pub const MIN_DESC_LENGTH: usize = 4;

pub const MAX_DESC_LENGTH: usize = 1024;

pub const MIN_LINK_LENGTH: usize = 12;

pub const MAX_LINK_LENGTH: usize = 128;

/// Rejects a title outside the allowed byte-length bounds.
pub fn validate_title(title: &str) -> (r: Result<(), GovError>)
    ensures
        r == (if MIN_TITLE_LENGTH <= title.spec_bytes().len() <= MAX_TITLE_LENGTH {
            Ok::<(), GovError>(())
        } else {
            Err::<(), GovError>(GovError::InvalidTitle)
        }),
{
    let n = title.as_bytes().len();
    if n < MIN_TITLE_LENGTH || n > MAX_TITLE_LENGTH {
        Err(GovError::InvalidTitle)
    } else {
        Ok(())
    }
}

/// Rejects a description outside the allowed byte-length bounds.
pub fn validate_description(description: &str) -> (r: Result<(), GovError>)
    ensures
        r == (if MIN_DESC_LENGTH <= description.spec_bytes().len() <= MAX_DESC_LENGTH {
            Ok::<(), GovError>(())
        } else {
            Err::<(), GovError>(GovError::InvalidDescription)
        }),
{
    let n = description.as_bytes().len();
    if n < MIN_DESC_LENGTH || n > MAX_DESC_LENGTH {
        Err(GovError::InvalidDescription)
    } else {
        Ok(())
    }
}

/// Whether an optional link is within the allowed byte-length bounds. A
/// missing link is always fine.
pub open spec fn link_valid(link: Option<String>) -> bool {
    match link {
        Some(l) => MIN_LINK_LENGTH <= skey_len(l) <= MAX_LINK_LENGTH,
        None => true,
    }
}

/// The byte length of a string.
pub open spec fn skey_len(s: String) -> int {
    crate::store::skey(s@).len() as int
}

/// Rejects a present link outside the allowed byte-length bounds.
pub fn validate_link(link: &Option<String>) -> (r: Result<(), GovError>)
    ensures
        r == (if link_valid(*link) {
            Ok::<(), GovError>(())
        } else {
            Err::<(), GovError>(GovError::InvalidLink)
        }),
{
    match link {
        Some(l) => {
            let n = l.as_str().as_bytes().len();
            if n < MIN_LINK_LENGTH || n > MAX_LINK_LENGTH {
                Err(GovError::InvalidLink)
            } else {
                Ok(())
            }
        },
        None => Ok(()),
    }
}

/// Rejects a quorum fraction above one.
pub fn validate_quorum(quorum: Decimal) -> (r: Result<(), GovError>)
    ensures
        r == (if quorum.atomics <= DECIMAL_FRACTIONAL {
            Ok::<(), GovError>(())
        } else {
            Err::<(), GovError>(GovError::InvalidQuorum)
        }),
{
    if quorum.atomics > DECIMAL_FRACTIONAL {
        Err(GovError::InvalidQuorum)
    } else {
        Ok(())
    }
}

/// Rejects a threshold fraction above one.
pub fn validate_threshold(threshold: Decimal) -> (r: Result<(), GovError>)
    ensures
        r == (if threshold.atomics <= DECIMAL_FRACTIONAL {
            Ok::<(), GovError>(())
        } else {
            Err::<(), GovError>(GovError::InvalidThreshold)
        }),
{
    if threshold.atomics > DECIMAL_FRACTIONAL {
        Err(GovError::InvalidThreshold)
    } else {
        Ok(())
    }
}

} // verus!
