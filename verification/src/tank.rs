//! The tank: the whole project, as loaded from its configuration document.
//!
//! A tank names itself and its version in the mandatory `tank` table and
//! lists its sections and profile overrides.  The document is parsed and the
//! sections are assembled around the library; this module holds the
//! validation of the mandatory fields and the finished value.

use vstd::prelude::*;

verus! {

use crate::config::ConfigValue;
use crate::config::spec_get;
use crate::profiles_manager::ProfilesManager;
use crate::section::Section;
use vstd::string::StringExecFns;

/// Failure to load the configuration document.
#[derive(Debug)]
pub enum TankError {
    ConfigFileDoesntExist(String),
    WrongFormatOfToml(String),
    MandatoryLack(String),
    WrongTypeOfField(String),
    SectionError(String),
}

/// A loaded project: its identity, its sections in declaration order, and
/// the profile registry it was resolved against.
#[derive(Debug)]
pub struct Tank {
    pub name: String,
    pub version: String,
    pub sections: Vec<Section>,
    pub profiles_manager: ProfilesManager,
}

/// The mandatory `tank` table with its mandatory string fields.
pub open spec fn tank_config_ok(c: ConfigValue) -> bool {
    match spec_get(c, "tank"@) {
        Some(t) => (spec_get(t, "name"@) matches Some(ConfigValue::Text(_))) && (spec_get(
            t,
            "version"@,
        ) matches Some(ConfigValue::Text(_))),
        None => false,
    }
}

/// A mandatory field is absent: the `tank` table itself, its name, or its
/// version.
pub open spec fn tank_field_missing(c: ConfigValue) -> bool {
    match spec_get(c, "tank"@) {
        Some(t) => spec_get(t, "name"@) is None || spec_get(t, "version"@) is None,
        None => true,
    }
}

/// The configured tank name.
pub open spec fn tank_name_of(c: ConfigValue) -> Seq<char> {
    match spec_get(c, "tank"@) {
        Some(t) => match spec_get(t, "name"@) {
            Some(ConfigValue::Text(s)) => s@,
            _ => Seq::empty(),
        },
        None => Seq::empty(),
    }
}

/// The configured tank version.
pub open spec fn tank_version_of(c: ConfigValue) -> Seq<char> {
    match spec_get(c, "tank"@) {
        Some(t) => match spec_get(t, "version"@) {
            Some(ConfigValue::Text(s)) => s@,
            _ => Seq::empty(),
        },
        None => Seq::empty(),
    }
}

impl Tank {
    /// Validate the document's mandatory fields and assemble the tank from
    /// the sections built for it.  A missing table or field is a
    /// `MandatoryLack`; a present field of the wrong type is a
    /// `WrongTypeOfField`.
    pub fn new(config: &ConfigValue, sections: Vec<Section>, profiles_manager: ProfilesManager) -> (r:
        Result<Tank, TankError>)
        ensures
            r is Ok <==> tank_config_ok(*config),
            r matches Ok(t) ==> t.name@ == tank_name_of(*config) && t.version@ == tank_version_of(
                *config,
            ) && t.sections == sections,
            r matches Err(e) ==> (e is MandatoryLack <==> tank_field_missing(*config)),
            r matches Err(e) ==> (e is WrongTypeOfField <==> !tank_field_missing(*config)),
    {
        let tank_table = match config.get("tank") {
            Some(t) => t,
            None => {
                return Err(
                    TankError::MandatoryLack(
                        String::from_str("Can't find 'tank' table which is mandatory"),
                    ),
                );
            },
        };
        let name_value = match tank_table.get("name") {
            Some(v) => v,
            None => {
                return Err(TankError::MandatoryLack(String::from_str("Can't find name of tank")));
            },
        };
        let version_value = match tank_table.get("version") {
            Some(v) => v,
            None => {
                return Err(
                    TankError::MandatoryLack(String::from_str("Can't find version of tank")),
                );
            },
        };
        let name = match name_value {
            ConfigValue::Text(s) => s.clone(),
            _ => {
                return Err(
                    TankError::WrongTypeOfField(String::from_str("Can't find name of tank")),
                );
            },
        };
        let version = match version_value {
            ConfigValue::Text(s) => s.clone(),
            _ => {
                return Err(
                    TankError::WrongTypeOfField(String::from_str("Can't find version of tank")),
                );
            },
        };
        Ok(Tank { name, version, sections, profiles_manager })
    }

    /// The sections, in declaration order.
    pub fn get_sections(&self) -> (r: &Vec<Section>)
        ensures
            r == self.sections,
    {
        &self.sections
    }
}

} // verus!
