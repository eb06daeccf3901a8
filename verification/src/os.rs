//! The operating system that an instance is configured with.

use crate::text::{blank, is_blank};
use vstd::prelude::*;

verus! {

/// `uuid::Uuid`, a universally unique identifier. It is carried through and
/// never looked into.
#[verifier::external_type_specification]
#[verifier::external_body]
pub struct ExUuid(uuid::Uuid);

/// Why a configuration is not valid.
#[derive(Debug, Clone, PartialEq, Eq)]
pub enum ConfigValidationError {
    /// A value is not acceptable; the string says which and why.
    InvalidValue(String),
}

/// An operating system that is booted by an iPXE script given in place.
#[derive(Debug, Clone, PartialEq, Eq)]
pub struct InlineIpxe {
    /// The iPXE script which is booted into.
    pub ipxe_script: String,
}

/// The kinds of operating system.
#[derive(Debug, PartialEq, Eq)]
pub enum OperatingSystemVariant {
    /// An operating system that is booted into via iPXE.
    Ipxe(InlineIpxe),
    /// An operating system image, by its identifier.
    OsImage(uuid::Uuid),
}

/// The operating system of an instance.
#[derive(Debug, PartialEq, Eq)]
pub struct OperatingSystem {
    /// cloud-init user data for any variant.
    pub user_data: Option<String>,
    pub variant: OperatingSystemVariant,
    /// Whether the instance waits for a phone-home contact before it is ready.
    pub phone_home_enabled: bool,
    /// Whether the provisioning instructions run on every boot, not only on
    /// the first.
    pub run_provisioning_instructions_on_every_boot: bool,
}

/// What the check of a script says: a script of nothing but white space is
/// turned away.
pub open spec fn script_check(script: Seq<char>) -> Result<(), Seq<char>> {
    if is_blank(script) {
        Err("InlineIpxe::ipxe_script is empty"@)
    } else {
        Ok(())
    }
}

/// The view of a check's result: the text of the error, where there is one.
pub open spec fn validation_view(r: Result<(), ConfigValidationError>) -> Result<(), Seq<char>> {
    match r {
        Ok(_) => Ok(()),
        Err(ConfigValidationError::InvalidValue(text)) => Err(text@),
    }
}

impl InlineIpxe {
    /// Checks that the script holds more than white space.
    pub fn validate(&self) -> (r: Result<(), ConfigValidationError>)
        ensures
            validation_view(r) == script_check(self.ipxe_script@),
    {
        if blank(self.ipxe_script.as_str()) {
            return Err(
                ConfigValidationError::InvalidValue("InlineIpxe::ipxe_script is empty".to_owned()),
            );
        }
        Ok(())
    }
}

impl OperatingSystem {
    /// Checks the operating system: an iPXE script must hold more than white
    /// space; an image is always accepted.
    pub fn validate(&self) -> (r: Result<(), ConfigValidationError>)
        ensures
            validation_view(r) == match self.variant {
                OperatingSystemVariant::Ipxe(ipxe) => script_check(ipxe.ipxe_script@),
                OperatingSystemVariant::OsImage(_) => Ok(()),
            },
    {
        match &self.variant {
            OperatingSystemVariant::Ipxe(ipxe) => ipxe.validate(),
            OperatingSystemVariant::OsImage(_id) => Ok(()),
        }
    }

    /// Whether this configuration may be replaced by `new_config`: always.
    pub fn verify_update_allowed_to(&self, _new_config: &Self) -> (r: Result<
        (),
        ConfigValidationError,
    >)
        ensures
            r is Ok,
    {
        Ok(())
    }
}

} // verus!
