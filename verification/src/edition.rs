//! Edition tags of a crate, and the edition names used in the serialized
//! project description.
//!
//! Edition strings outside the closed set of known editions are a
//! recoverable condition: parsing reports [`ParseEditionError`], and the
//! graph materialization falls back to the most recent known edition.

use crate::strings::str_eq;
use vstd::prelude::*;
use vstd::std_specs::convert::FromSpec;

verus! {

/// Edition tag of one crate.
#[derive(Debug, Clone, Copy, PartialEq, Eq, Structural)]
pub enum Edition {
    Edition2015,
    Edition2018,
    Edition2021,
}

/// Edition tag as it appears in the serialized project description.
#[derive(Debug, Clone, Copy, PartialEq, Eq, Structural)]
pub enum EditionData {
    Edition2015,
    Edition2018,
    Edition2021,
}

/// Error carrying an edition string that names no known edition.
#[derive(Debug)]
pub struct ParseEditionError {
    pub invalid_input: String,
}

impl Clone for ParseEditionError {
    fn clone(&self) -> (r: Self)
        ensures
            r.invalid_input@ == self.invalid_input@,
    {
        ParseEditionError { invalid_input: self.invalid_input.clone() }
    }
}

impl Edition {
    /// The most recent known edition, used as the fallback for
    /// unparsable edition strings.
    pub fn current() -> (e: Edition)
        ensures
            e == Edition::Edition2021,
    {
        Edition::Edition2021
    }

    /// The decimal name of this edition.
    pub open spec fn spec_str(self) -> Seq<char> {
        match self {
            Edition::Edition2015 => "2015"@,
            Edition::Edition2018 => "2018"@,
            Edition::Edition2021 => "2021"@,
        }
    }

    /// Returns the decimal name of this edition.
    pub fn as_str(&self) -> (s: &'static str)
        ensures
            s@ == self.spec_str(),
    {
        match self {
            Edition::Edition2015 => "2015",
            Edition::Edition2018 => "2018",
            Edition::Edition2021 => "2021",
        }
    }

    /// Which edition, if any, a string names.
    pub open spec fn spec_parse(s: Seq<char>) -> Option<Edition> {
        if s == "2015"@ {
            Some(Edition::Edition2015)
        } else if s == "2018"@ {
            Some(Edition::Edition2018)
        } else if s == "2021"@ {
            Some(Edition::Edition2021)
        } else {
            None
        }
    }

    /// Parses an edition name; any other string is rejected with the
    /// offending input.
    pub fn from_str(s: &str) -> (r: Result<Edition, ParseEditionError>)
        ensures
            Edition::spec_parse(s@) matches Some(e) ==> (r matches Ok(got) && got == e),
            Edition::spec_parse(s@) is None ==> (r matches Err(err) && err.invalid_input@ == s@),
    {
        if str_eq(s, "2015") {
            Ok(Edition::Edition2015)
        } else if str_eq(s, "2018") {
            Ok(Edition::Edition2018)
        } else if str_eq(s, "2021") {
            Ok(Edition::Edition2021)
        } else {
            Err(ParseEditionError { invalid_input: s.to_owned() })
        }
    }
}

impl EditionData {
    /// Parses an edition name of the serialized description; any other
    /// string is rejected with the offending input.
    pub fn from_str(s: &str) -> (r: Result<EditionData, ParseEditionError>)
        ensures
            Edition::spec_parse(s@) matches Some(e) ==> (r matches Ok(got) && got == spec_edition_data_of(e)),
            Edition::spec_parse(s@) is None ==> (r matches Err(err) && err.invalid_input@ == s@),
    {
        match Edition::from_str(s) {
            Ok(e) => Ok(EditionData::from(e)),
            Err(err) => Err(err),
        }
    }
}

impl From<EditionData> for Edition {
    fn from(data: EditionData) -> (e: Edition) {
        match data {
            EditionData::Edition2015 => Edition::Edition2015,
            EditionData::Edition2018 => Edition::Edition2018,
            EditionData::Edition2021 => Edition::Edition2021,
        }
    }
}

impl vstd::std_specs::convert::FromSpecImpl<EditionData> for Edition {
    open spec fn obeys_from_spec() -> bool {
        true
    }

    open spec fn from_spec(data: EditionData) -> Edition {
        match data {
            EditionData::Edition2015 => Edition::Edition2015,
            EditionData::Edition2018 => Edition::Edition2018,
            EditionData::Edition2021 => Edition::Edition2021,
        }
    }
}

/// The serialized tag of an edition.
pub open spec fn spec_edition_data_of(data: Edition) -> EditionData {
    match data {
        Edition::Edition2015 => EditionData::Edition2015,
        Edition::Edition2018 => EditionData::Edition2018,
        Edition::Edition2021 => EditionData::Edition2021,
    }
}

impl EditionData {
    /// Returns the serialized tag of an edition.
    pub fn from(data: Edition) -> (e: EditionData)
        ensures
            e == spec_edition_data_of(data),
    {
        match data {
            Edition::Edition2015 => EditionData::Edition2015,
            Edition::Edition2018 => EditionData::Edition2018,
            Edition::Edition2021 => EditionData::Edition2021,
        }
    }
}

} // verus!
