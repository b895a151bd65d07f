//! Who may call the API.
//!
//! A request passes where the configuration asks for no key. Elsewhere it
//! has to present, in its `X-API-KEY` header, the key that the service was
//! started with.

use vstd::prelude::*;
use crate::configuration::Api;
use crate::text::same_text;

verus! {

/// The `X-API-KEY` header of a request.
#[derive(Clone, Debug)]
pub enum PresentedKey {
    /// The request has no such header.
    Absent,
    /// The header is there and holds no text.
    Unreadable,
    /// The header holds this text.
    Text(String),
}

/// What a [`PresentedKey`] stands for.
pub enum PresentedKeyModel {
    Absent,
    Unreadable,
    Text(Seq<char>),
}

impl View for PresentedKey {
    type V = PresentedKeyModel;

    open spec fn view(&self) -> PresentedKeyModel {
        match self {
            PresentedKey::Absent => PresentedKeyModel::Absent,
            PresentedKey::Unreadable => PresentedKeyModel::Unreadable,
            PresentedKey::Text(key) => PresentedKeyModel::Text(key@),
        }
    }
}

/// Why a request was turned away.
#[derive(Clone, Copy, Debug, PartialEq, Eq, Structural)]
pub enum Rejection {
    /// The request presented no key.
    MissingHeader,
    /// The service was started without a key, so none can be right.
    KeyNotSet,
    /// The presented key is no text.
    UnreadableKey,
    /// The presented key is not the key of the service.
    WrongKey,
}

impl Rejection {
    /// The words that the caller is told.
    pub open spec fn text(self) -> Seq<char> {
        match self {
            Rejection::MissingHeader => "No 'X-API-KEY' header found. Authorization is required."@,
            Rejection::KeyNotSet => "'APP_API_KEY' is not set"@,
            Rejection::UnreadableKey => "API key couldn't be converted into str"@,
            Rejection::WrongKey => "Wrong API key"@,
        }
    }

    /// The words that the caller is told.
    pub fn message(self) -> (message: &'static str)
        ensures
            message@ == self.text(),
    {
        match self {
            Rejection::MissingHeader => "No 'X-API-KEY' header found. Authorization is required.",
            Rejection::KeyNotSet => "'APP_API_KEY' is not set",
            Rejection::UnreadableKey => "API key couldn't be converted into str",
            Rejection::WrongKey => "Wrong API key",
        }
    }
}

/// Whether a request that presents `presented` passes where the key of the
/// service is `required`. A request without the header is turned away before
/// anything else is looked at; then a service without a key turns everything
/// away; then the key has to be text, and the right one.
pub open spec fn key_check(presented: PresentedKeyModel, required: Option<Seq<char>>) -> Result<
    (),
    Rejection,
> {
    match presented {
        PresentedKeyModel::Absent => Err(Rejection::MissingHeader),
        PresentedKeyModel::Unreadable => match required {
            None => Err(Rejection::KeyNotSet),
            Some(_) => Err(Rejection::UnreadableKey),
        },
        PresentedKeyModel::Text(key) => match required {
            None => Err(Rejection::KeyNotSet),
            Some(right) => if key == right {
                Ok(())
            } else {
                Err(Rejection::WrongKey)
            },
        },
    }
}

/// The text of the key of the service, if it has one.
pub open spec fn required_text(required: Option<&str>) -> Option<Seq<char>> {
    match required {
        Some(key) => Some(key@),
        None => None,
    }
}

/// Whether a request passes the administrative part of the API.
pub open spec fn admin_access(
    api: Api,
    presented: PresentedKeyModel,
    required: Option<Seq<char>>,
) -> Result<(), Rejection> {
    if api.no_auth {
        Ok(())
    } else {
        key_check(presented, required)
    }
}

/// Whether a request passes the API.
pub open spec fn api_access(
    api: Api,
    presented: PresentedKeyModel,
    required: Option<Seq<char>>,
) -> Result<(), Rejection> {
    if api.no_auth || api.public {
        Ok(())
    } else {
        key_check(presented, required)
    }
}

/// Passes a request that presents the key of the service, and turns every
/// other away with the reason.
pub fn reject_unauthorized_request(presented: &PresentedKey, required: Option<&str>) -> (decision:
    Result<(), Rejection>)
    ensures
        decision == key_check(presented@, required_text(required)),
{
    match presented {
        PresentedKey::Absent => Err(Rejection::MissingHeader),
        PresentedKey::Unreadable => match required {
            None => Err(Rejection::KeyNotSet),
            Some(_) => Err(Rejection::UnreadableKey),
        },
        PresentedKey::Text(key) => match required {
            None => Err(Rejection::KeyNotSet),
            Some(right) => if same_text(key.as_str(), right) {
                Ok(())
            } else {
                Err(Rejection::WrongKey)
            },
        },
    }
}

/// The administrative part of the API: open where no key is asked for at
/// all, and to the holder of the key elsewhere.
pub fn api_admin_middleware(api: &Api, presented: &PresentedKey, required: Option<&str>) -> (decision:
    Result<(), Rejection>)
    ensures
        decision == admin_access(*api, presented@, required_text(required)),
{
    if api.no_auth {
        Ok(())
    } else {
        reject_unauthorized_request(presented, required)
    }
}

/// The API: open where no key is asked for or the API is public, and to the
/// holder of the key elsewhere.
pub fn api_middleware(api: &Api, presented: &PresentedKey, required: Option<&str>) -> (decision:
    Result<(), Rejection>)
    ensures
        decision == api_access(*api, presented@, required_text(required)),
{
    if api.no_auth || api.public {
        Ok(())
    } else {
        reject_unauthorized_request(presented, required)
    }
}

} // verus!
