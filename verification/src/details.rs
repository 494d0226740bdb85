//! The record that one resolved address yields, and the per-country values
//! that enrich it.

use vstd::prelude::*;

verus! {

/// Flag of a country: the emoji glyph and its code points.
#[derive(Debug, PartialEq, Eq)]
pub struct CountryFlag {
    pub emoji: String,
    pub unicode: String,
}

/// Currency of a country: its ISO code and its symbol.
#[derive(Debug, PartialEq, Eq)]
pub struct CountryCurrency {
    pub code: String,
    pub symbol: String,
}

/// Continent of a country: its code and its name.
#[derive(Debug, PartialEq, Eq)]
pub struct Continent {
    pub code: String,
    pub name: String,
}

/// What is known of one address.
///
/// `country_name`, `is_eu`, `country_flag`, `country_currency` and `continent`
/// never come from the remote service: the engine derives them from `country`.
#[derive(Debug, PartialEq, Eq)]
pub struct IpDetails {
    /// The address itself.
    pub ip: String,
    /// Reverse DNS name of the address.
    pub hostname: Option<String>,
    pub city: String,
    pub region: String,
    /// Two-letter country code; empty where the service knows none.
    pub country: String,
    pub country_name: Option<String>,
    pub is_eu: Option<bool>,
    pub country_flag: Option<CountryFlag>,
    pub country_currency: Option<CountryCurrency>,
    pub continent: Option<Continent>,
    /// Coordinates, written "latitude,longitude".
    pub loc: String,
    pub postal: Option<String>,
    pub timezone: Option<String>,
}

/// A text as the sequence of its characters.
pub type Text = Seq<char>;

pub struct CountryFlagView {
    pub emoji: Text,
    pub unicode: Text,
}

pub struct CountryCurrencyView {
    pub code: Text,
    pub symbol: Text,
}

pub struct ContinentView {
    pub code: Text,
    pub name: Text,
}

pub struct IpDetailsView {
    pub ip: Text,
    pub hostname: Option<Text>,
    pub city: Text,
    pub region: Text,
    pub country: Text,
    pub country_name: Option<Text>,
    pub is_eu: Option<bool>,
    pub country_flag: Option<CountryFlagView>,
    pub country_currency: Option<CountryCurrencyView>,
    pub continent: Option<ContinentView>,
    pub loc: Text,
    pub postal: Option<Text>,
    pub timezone: Option<Text>,
}

/// The characters of an optional string.
pub open spec fn text_of(s: Option<String>) -> Option<Text> {
    match s {
        Some(t) => Some(t@),
        None => None,
    }
}

impl View for CountryFlag {
    type V = CountryFlagView;

    open spec fn view(&self) -> CountryFlagView {
        CountryFlagView { emoji: self.emoji@, unicode: self.unicode@ }
    }
}

impl View for CountryCurrency {
    type V = CountryCurrencyView;

    open spec fn view(&self) -> CountryCurrencyView {
        CountryCurrencyView { code: self.code@, symbol: self.symbol@ }
    }
}

impl View for Continent {
    type V = ContinentView;

    open spec fn view(&self) -> ContinentView {
        ContinentView { code: self.code@, name: self.name@ }
    }
}

impl View for IpDetails {
    type V = IpDetailsView;

    open spec fn view(&self) -> IpDetailsView {
        IpDetailsView {
            ip: self.ip@,
            hostname: text_of(self.hostname),
            city: self.city@,
            region: self.region@,
            country: self.country@,
            country_name: text_of(self.country_name),
            is_eu: self.is_eu,
            country_flag: match self.country_flag {
                Some(f) => Some(f@),
                None => None,
            },
            country_currency: match self.country_currency {
                Some(c) => Some(c@),
                None => None,
            },
            continent: match self.continent {
                Some(c) => Some(c@),
                None => None,
            },
            loc: self.loc@,
            postal: text_of(self.postal),
            timezone: text_of(self.timezone),
        }
    }
}

/// A copy of an optional string.
pub fn copy_text(s: &Option<String>) -> (copy: Option<String>)
    ensures
        text_of(copy) == text_of(*s),
{
    match s {
        Some(t) => Some(t.clone()),
        None => None,
    }
}

impl Clone for CountryFlag {
    fn clone(&self) -> (copy: Self)
        ensures
            copy@ == self@,
    {
        CountryFlag { emoji: self.emoji.clone(), unicode: self.unicode.clone() }
    }
}

impl Clone for CountryCurrency {
    fn clone(&self) -> (copy: Self)
        ensures
            copy@ == self@,
    {
        CountryCurrency { code: self.code.clone(), symbol: self.symbol.clone() }
    }
}

impl Clone for Continent {
    fn clone(&self) -> (copy: Self)
        ensures
            copy@ == self@,
    {
        Continent { code: self.code.clone(), name: self.name.clone() }
    }
}

impl Clone for IpDetails {
    fn clone(&self) -> (copy: Self)
        ensures
            copy@ == self@,
    {
        IpDetails {
            ip: self.ip.clone(),
            hostname: copy_text(&self.hostname),
            city: self.city.clone(),
            region: self.region.clone(),
            country: self.country.clone(),
            country_name: copy_text(&self.country_name),
            is_eu: self.is_eu,
            country_flag: match &self.country_flag {
                Some(f) => Some(f.clone()),
                None => None,
            },
            country_currency: match &self.country_currency {
                Some(c) => Some(c.clone()),
                None => None,
            },
            continent: match &self.continent {
                Some(c) => Some(c.clone()),
                None => None,
            },
            loc: self.loc.clone(),
            postal: copy_text(&self.postal),
            timezone: copy_text(&self.timezone),
        }
    }
}

} // verus!
