//! The reference data store: what is known of each country, by its code.
//!
//! Four tables (name, flag, currency, continent) and the set of the member
//! countries of the European Union. The store is filled once, from the rows of
//! its tables or from five JSON documents, and never changes afterwards.

use crate::details::{
    text_of, Continent, ContinentView, CountryCurrency, CountryCurrencyView, CountryFlag,
    CountryFlagView, IpDetails, IpDetailsView, Text,
};
use crate::error::{failure, IpError, IpErrorKind};
use crate::json::{document, items, object, parse, parsed, text, Json};
use crate::rows::{entries_of, table};
use crate::wire::{read_required, read_rows, required_field, wire_rows};
use serde_json::Value;
use vstd::hash_map::StringHashMap;
use vstd::prelude::*;

verus! {

/// The five documents that the store is filled from, as JSON texts.
pub struct ReferenceSources {
    /// An object from country code to country name.
    pub countries: String,
    /// An array of the codes of the member countries of the European Union.
    pub eu: String,
    /// An object from country code to an object with `emoji` and `unicode`.
    pub country_flags: String,
    /// An object from country code to an object with `code` and `symbol`.
    pub country_currencies: String,
    /// An object from country code to an object with `code` and `name`.
    pub continents: String,
}

/// The reference data store.
pub struct ReferenceData {
    countries: StringHashMap<String>,
    eu: Vec<String>,
    country_flags: StringHashMap<CountryFlag>,
    country_currencies: StringHashMap<CountryCurrency>,
    continents: StringHashMap<Continent>,
}

/// The store as four mappings and a set.
pub struct ReferenceView {
    pub names: Map<Text, Text>,
    pub eu: Set<Text>,
    pub flags: Map<Text, CountryFlagView>,
    pub currencies: Map<Text, CountryCurrencyView>,
    pub continents: Map<Text, ContinentView>,
}

/// The texts that a sequence of strings holds.
pub open spec fn texts_in(codes: Seq<String>) -> Set<Text> {
    Set::new(|code: Text| exists|i: int| 0 <= i < codes.len() && (#[trigger] codes[i])@ == code)
}

impl View for ReferenceData {
    type V = ReferenceView;

    closed spec fn view(&self) -> ReferenceView {
        ReferenceView {
            names: names_in(self.countries@),
            eu: texts_in(self.eu@),
            flags: flags_in(self.country_flags@),
            currencies: currencies_in(self.country_currencies@),
            continents: continents_in(self.continents@),
        }
    }
}

/// Do all four tables know the country?
pub open spec fn covers(reference: ReferenceView, code: Text) -> bool {
    &&& reference.names.contains_key(code)
    &&& reference.flags.contains_key(code)
    &&& reference.currencies.contains_key(code)
    &&& reference.continents.contains_key(code)
}

/// A record after enrichment: one without country is left as it is; in any
/// other, every derived field is set to what the store knows of the country.
pub open spec fn enriched_record(reference: ReferenceView, record: IpDetailsView) -> IpDetailsView {
    if record.country.len() == 0 {
        record
    } else {
        IpDetailsView {
            country_name: Some(reference.names[record.country]),
            is_eu: Some(reference.eu.contains(record.country)),
            country_flag: Some(reference.flags[record.country]),
            country_currency: Some(reference.currencies[record.country]),
            continent: Some(reference.continents[record.country]),
            ..record
        }
    }
}

/// The derived fields of a record agree with the store: a record without
/// country has none of them, and a record with a country has all of them, each
/// as the store gives it for that country.
pub open spec fn consistent(reference: ReferenceView, record: IpDetailsView) -> bool {
    if record.country.len() == 0 {
        &&& record.country_name is None
        &&& record.is_eu is None
        &&& record.country_flag is None
        &&& record.country_currency is None
        &&& record.continent is None
    } else {
        &&& covers(reference, record.country)
        &&& record.country_name == Some(reference.names[record.country])
        &&& record.is_eu == Some(reference.eu.contains(record.country))
        &&& record.country_flag == Some(reference.flags[record.country])
        &&& record.country_currency == Some(reference.currencies[record.country])
        &&& record.continent == Some(reference.continents[record.country])
    }
}

/// The name that a document describes: a string.
pub open spec fn wire_name(doc: Json) -> Option<Text> {
    match doc {
        Json::Text(name) => Some(name),
        _ => None,
    }
}

/// The flag that a document describes: an object with the strings `emoji`
/// and `unicode`.
pub open spec fn wire_flag(doc: Json) -> Option<CountryFlagView> {
    if doc is Object && required_field(doc, "emoji"@) is Some && required_field(
        doc,
        "unicode"@,
    ) is Some {
        Some(
            CountryFlagView {
                emoji: required_field(doc, "emoji"@)->0,
                unicode: required_field(doc, "unicode"@)->0,
            },
        )
    } else {
        None
    }
}

/// The currency that a document describes: an object with the strings `code`
/// and `symbol`.
pub open spec fn wire_currency(doc: Json) -> Option<CountryCurrencyView> {
    if doc is Object && required_field(doc, "code"@) is Some && required_field(
        doc,
        "symbol"@,
    ) is Some {
        Some(
            CountryCurrencyView {
                code: required_field(doc, "code"@)->0,
                symbol: required_field(doc, "symbol"@)->0,
            },
        )
    } else {
        None
    }
}

/// The continent that a document describes: an object with the strings `code`
/// and `name`.
pub open spec fn wire_continent(doc: Json) -> Option<ContinentView> {
    if doc is Object && required_field(doc, "code"@) is Some && required_field(
        doc,
        "name"@,
    ) is Some {
        Some(
            ContinentView {
                code: required_field(doc, "code"@)->0,
                name: required_field(doc, "name"@)->0,
            },
        )
    } else {
        None
    }
}

/// The names by country that a document describes: an object of names.
pub open spec fn wire_names(doc: Json) -> Option<Seq<(Text, Text)>> {
    wire_rows(doc, |member: Json| wire_name(member))
}

/// The flags by country that a document describes: an object of flags.
pub open spec fn wire_flags(doc: Json) -> Option<Seq<(Text, CountryFlagView)>> {
    wire_rows(doc, |member: Json| wire_flag(member))
}

/// The currencies by country that a document describes: an object of
/// currencies.
pub open spec fn wire_currencies(doc: Json) -> Option<Seq<(Text, CountryCurrencyView)>> {
    wire_rows(doc, |member: Json| wire_currency(member))
}

/// The continents by country that a document describes: an object of
/// continents.
pub open spec fn wire_continents(doc: Json) -> Option<Seq<(Text, ContinentView)>> {
    wire_rows(doc, |member: Json| wire_continent(member))
}

/// The set of codes that a document describes: an array of strings.
pub open spec fn wire_codes(doc: Json) -> Option<Set<Text>> {
    match doc {
        Json::Array(elements) => if forall|i: int|
            0 <= i < elements.len() ==> (#[trigger] elements[i]) is Text {
            Some(
                Set::new(
                    |code: Text|
                        exists|i: int|
                            0 <= i < elements.len() && (#[trigger] elements[i]) == Json::Text(
                                code,
                            ),
                ),
            )
        } else {
            None
        },
        _ => None,
    }
}

/// The store that five documents describe, if each describes its part.
pub open spec fn wire_reference(
    countries: Json,
    eu: Json,
    flags: Json,
    currencies: Json,
    continents: Json,
) -> Option<ReferenceView> {
    if wire_names(countries) is Some && wire_codes(eu) is Some && wire_flags(flags) is Some
        && wire_currencies(currencies) is Some && wire_continents(continents) is Some {
        Some(
            ReferenceView {
                names: table(wire_names(countries)->0),
                eu: wire_codes(eu)->0,
                flags: table(wire_flags(flags)->0),
                currencies: table(wire_currencies(currencies)->0),
                continents: table(wire_continents(continents)->0),
            },
        )
    } else {
        None
    }
}

/// The store that five texts describe, if each is JSON and describes its part.
pub open spec fn parsed_reference(
    countries: Text,
    eu: Text,
    flags: Text,
    currencies: Text,
    continents: Text,
) -> Option<ReferenceView> {
    if parsed(countries) is Some && parsed(eu) is Some && parsed(flags) is Some && parsed(
        currencies,
    ) is Some && parsed(continents) is Some {
        wire_reference(
            parsed(countries)->0,
            parsed(eu)->0,
            parsed(flags)->0,
            parsed(currencies)->0,
            parsed(continents)->0,
        )
    } else {
        None
    }
}

/// The names in a table of strings.
pub open spec fn names_in(filled: Map<Text, String>) -> Map<Text, Text> {
    Map::new(|code: Text| filled.contains_key(code), |code: Text| filled[code]@)
}

/// The flags in a table.
pub open spec fn flags_in(filled: Map<Text, CountryFlag>) -> Map<Text, CountryFlagView> {
    Map::new(|code: Text| filled.contains_key(code), |code: Text| filled[code]@)
}

/// The currencies in a table.
pub open spec fn currencies_in(filled: Map<Text, CountryCurrency>) -> Map<
    Text,
    CountryCurrencyView,
> {
    Map::new(|code: Text| filled.contains_key(code), |code: Text| filled[code]@)
}

/// The continents in a table.
pub open spec fn continents_in(filled: Map<Text, Continent>) -> Map<Text, ContinentView> {
    Map::new(|code: Text| filled.contains_key(code), |code: Text| filled[code]@)
}

/// Reads a name.
pub fn read_name(value: &Value) -> (found: Option<String>)
    ensures
        text_of(found) == wire_name(document(*value)),
{
    match text(value) {
        Some(name) => Some(name.to_owned()),
        None => None,
    }
}

/// Reads a flag.
pub fn read_flag(value: &Value) -> (found: Option<CountryFlag>)
    ensures
        match found {
            Some(flag) => wire_flag(document(*value)) == Some(flag@),
            None => wire_flag(document(*value)) is None,
        },
{
    if object(value).is_none() {
        return None;
    }
    let emoji = match read_required(value, "emoji") {
        Some(s) => s,
        None => { return None; },
    };
    let unicode = match read_required(value, "unicode") {
        Some(s) => s,
        None => { return None; },
    };
    Some(CountryFlag { emoji, unicode })
}

/// Reads a currency.
pub fn read_currency(value: &Value) -> (found: Option<CountryCurrency>)
    ensures
        match found {
            Some(currency) => wire_currency(document(*value)) == Some(currency@),
            None => wire_currency(document(*value)) is None,
        },
{
    if object(value).is_none() {
        return None;
    }
    let code = match read_required(value, "code") {
        Some(s) => s,
        None => { return None; },
    };
    let symbol = match read_required(value, "symbol") {
        Some(s) => s,
        None => { return None; },
    };
    Some(CountryCurrency { code, symbol })
}

/// Reads a continent.
pub fn read_continent(value: &Value) -> (found: Option<Continent>)
    ensures
        match found {
            Some(continent) => wire_continent(document(*value)) == Some(continent@),
            None => wire_continent(document(*value)) is None,
        },
{
    if object(value).is_none() {
        return None;
    }
    let code = match read_required(value, "code") {
        Some(s) => s,
        None => { return None; },
    };
    let name = match read_required(value, "name") {
        Some(s) => s,
        None => { return None; },
    };
    Some(Continent { code, name })
}

/// Reads a set of codes.
pub fn read_codes(value: &Value) -> (found: Option<Vec<String>>)
    ensures
        match found {
            Some(codes) => wire_codes(document(*value)) == Some(texts_in(codes@)),
            None => wire_codes(document(*value)) is None,
        },
{
    let elements = match items(value) {
        Some(elements) => elements,
        None => { return None; },
    };
    let ghost docs = elements@.map_values(|element: Value| document(element));
    let mut codes: Vec<String> = Vec::new();
    let mut i: usize = 0;
    while i < elements.len()
        invariant
            document(*value) == Json::Array(docs),
            docs == elements@.map_values(|element: Value| document(element)),
            0 <= i <= elements.len(),
            codes@.len() == i,
            forall|k: int| 0 <= k < i ==> (#[trigger] docs[k]) == Json::Text(codes@[k]@),
        decreases elements.len() - i,
    {
        assert(docs[i as int] == document(elements@[i as int]));
        match text(&elements[i]) {
            Some(s) => {
                codes.push(s.to_owned());
            },
            None => {
                return None;
            },
        }
        i = i + 1;
    }
    proof {
        let wanted = wire_codes(document(*value))->0;
        assert forall|code: Text| wanted.contains(code) implies texts_in(codes@).contains(code) by {
            let k = choose|k: int| 0 <= k < docs.len() && (#[trigger] docs[k]) == Json::Text(code);
            assert(codes@[k]@ == code);
        }
        assert forall|code: Text| texts_in(codes@).contains(code) implies wanted.contains(code) by {
            let k = choose|k: int| 0 <= k < codes@.len() && (#[trigger] codes@[k])@ == code;
            assert(docs[k] == Json::Text(code));
        }
        assert(wanted =~= texts_in(codes@));
    }
    Some(codes)
}

/// Fills a table of names from its rows; of two rows for one country the
/// later counts.
fn names_table(rows: &Vec<(String, String)>) -> (filled: StringHashMap<String>)
    ensures
        names_in(filled@) == table(entries_of(rows@)),
{
    let mut filled: StringHashMap<String> = StringHashMap::new();
    let mut i: usize = 0;
    assert(names_in(filled@) =~= table(entries_of(rows@).take(0)));
    while i < rows.len()
        invariant
            0 <= i <= rows.len(),
            names_in(filled@) == table(entries_of(rows@).take(i as int)),
        decreases rows.len() - i,
    {
        let ghost before = filled@;
        let row = &rows[i];
        filled.insert(row.0.clone(), row.1.clone());
        proof {
            let longer = entries_of(rows@).take(i + 1);
            assert(longer.drop_last() =~= entries_of(rows@).take(i as int));
            assert(longer.last() == (row.0@, row.1@));
            assert(names_in(filled@) =~= names_in(before).insert(row.0@, row.1@));
        }
        i = i + 1;
    }
    assert(entries_of(rows@).take(rows.len() as int) =~= entries_of(rows@));
    filled
}

/// Fills a table of flags from its rows; of two rows for one country the
/// later counts.
fn flags_table(rows: &Vec<(String, CountryFlag)>) -> (filled: StringHashMap<CountryFlag>)
    ensures
        flags_in(filled@) == table(entries_of(rows@)),
{
    let mut filled: StringHashMap<CountryFlag> = StringHashMap::new();
    let mut i: usize = 0;
    assert(flags_in(filled@) =~= table(entries_of(rows@).take(0)));
    while i < rows.len()
        invariant
            0 <= i <= rows.len(),
            flags_in(filled@) == table(entries_of(rows@).take(i as int)),
        decreases rows.len() - i,
    {
        let ghost before = filled@;
        let row = &rows[i];
        filled.insert(row.0.clone(), row.1.clone());
        proof {
            let longer = entries_of(rows@).take(i + 1);
            assert(longer.drop_last() =~= entries_of(rows@).take(i as int));
            assert(longer.last() == (row.0@, row.1@));
            assert(flags_in(filled@) =~= flags_in(before).insert(row.0@, row.1@));
        }
        i = i + 1;
    }
    assert(entries_of(rows@).take(rows.len() as int) =~= entries_of(rows@));
    filled
}

/// Fills a table of currencies from its rows; of two rows for one country
/// the later counts.
fn currencies_table(rows: &Vec<(String, CountryCurrency)>) -> (filled: StringHashMap<
    CountryCurrency,
>)
    ensures
        currencies_in(filled@) == table(entries_of(rows@)),
{
    let mut filled: StringHashMap<CountryCurrency> = StringHashMap::new();
    let mut i: usize = 0;
    assert(currencies_in(filled@) =~= table(entries_of(rows@).take(0)));
    while i < rows.len()
        invariant
            0 <= i <= rows.len(),
            currencies_in(filled@) == table(entries_of(rows@).take(i as int)),
        decreases rows.len() - i,
    {
        let ghost before = filled@;
        let row = &rows[i];
        filled.insert(row.0.clone(), row.1.clone());
        proof {
            let longer = entries_of(rows@).take(i + 1);
            assert(longer.drop_last() =~= entries_of(rows@).take(i as int));
            assert(longer.last() == (row.0@, row.1@));
            assert(currencies_in(filled@) =~= currencies_in(before).insert(row.0@, row.1@));
        }
        i = i + 1;
    }
    assert(entries_of(rows@).take(rows.len() as int) =~= entries_of(rows@));
    filled
}

/// Fills a table of continents from its rows; of two rows for one country
/// the later counts.
fn continents_table(rows: &Vec<(String, Continent)>) -> (filled: StringHashMap<Continent>)
    ensures
        continents_in(filled@) == table(entries_of(rows@)),
{
    let mut filled: StringHashMap<Continent> = StringHashMap::new();
    let mut i: usize = 0;
    assert(continents_in(filled@) =~= table(entries_of(rows@).take(0)));
    while i < rows.len()
        invariant
            0 <= i <= rows.len(),
            continents_in(filled@) == table(entries_of(rows@).take(i as int)),
        decreases rows.len() - i,
    {
        let ghost before = filled@;
        let row = &rows[i];
        filled.insert(row.0.clone(), row.1.clone());
        proof {
            let longer = entries_of(rows@).take(i + 1);
            assert(longer.drop_last() =~= entries_of(rows@).take(i as int));
            assert(longer.last() == (row.0@, row.1@));
            assert(continents_in(filled@) =~= continents_in(before).insert(row.0@, row.1@));
        }
        i = i + 1;
    }
    assert(entries_of(rows@).take(rows.len() as int) =~= entries_of(rows@));
    filled
}

impl ReferenceData {
    /// The store with the given tables and member countries of the European
    /// Union. Each table is given by its rows; of two rows for one country
    /// the later counts.
    pub fn from_tables(
        countries: Vec<(String, String)>,
        eu: Vec<String>,
        country_flags: Vec<(String, CountryFlag)>,
        country_currencies: Vec<(String, CountryCurrency)>,
        continents: Vec<(String, Continent)>,
    ) -> (data: ReferenceData)
        ensures
            data@ == (ReferenceView {
                names: table(entries_of(countries@)),
                eu: texts_in(eu@),
                flags: table(entries_of(country_flags@)),
                currencies: table(entries_of(country_currencies@)),
                continents: table(entries_of(continents@)),
            }),
    {
        let data = ReferenceData {
            countries: names_table(&countries),
            eu,
            country_flags: flags_table(&country_flags),
            country_currencies: currencies_table(&country_currencies),
            continents: continents_table(&continents),
        };
        proof {
            assert(data@.names =~= table(entries_of(countries@)));
            assert(data@.flags =~= table(entries_of(country_flags@)));
            assert(data@.currencies =~= table(entries_of(country_currencies@)));
            assert(data@.continents =~= table(entries_of(continents@)));
        }
        data
    }

    /// Fills the store from five documents; `None` if one of them does not
    /// describe its part.
    pub fn from_documents(
        countries: &Value,
        eu: &Value,
        flags: &Value,
        currencies: &Value,
        continents: &Value,
    ) -> (found: Option<ReferenceData>)
        ensures
            match found {
                Some(data) => wire_reference(
                    document(*countries),
                    document(*eu),
                    document(*flags),
                    document(*currencies),
                    document(*continents),
                ) == Some(data@),
                None => wire_reference(
                    document(*countries),
                    document(*eu),
                    document(*flags),
                    document(*currencies),
                    document(*continents),
                ) is None,
            },
    {
        let names = match read_rows(countries, read_name, Ghost(|member: Json| wire_name(member))) {
            Some(rows) => rows,
            None => { return None; },
        };
        let codes = match read_codes(eu) {
            Some(codes) => codes,
            None => { return None; },
        };
        let country_flags = match read_rows(
            flags,
            read_flag,
            Ghost(|member: Json| wire_flag(member)),
        ) {
            Some(rows) => rows,
            None => { return None; },
        };
        let country_currencies = match read_rows(
            currencies,
            read_currency,
            Ghost(|member: Json| wire_currency(member)),
        ) {
            Some(rows) => rows,
            None => { return None; },
        };
        let continent_names = match read_rows(
            continents,
            read_continent,
            Ghost(|member: Json| wire_continent(member)),
        ) {
            Some(rows) => rows,
            None => { return None; },
        };
        Some(
            ReferenceData::from_tables(
                names,
                codes,
                country_flags,
                country_currencies,
                continent_names,
            ),
        )
    }

    /// Fills the store from five JSON texts. It fails, with
    /// `ReferenceDataError`, if one of them is no JSON or does not describe
    /// its part.
    pub fn parse(sources: &ReferenceSources) -> (outcome: Result<ReferenceData, IpError>)
        ensures
            match outcome {
                Ok(data) => parsed_reference(
                    sources.countries@,
                    sources.eu@,
                    sources.country_flags@,
                    sources.country_currencies@,
                    sources.continents@,
                ) == Some(data@),
                Err(error) => error@ == failure(IpErrorKind::ReferenceDataError)
                    && parsed_reference(
                    sources.countries@,
                    sources.eu@,
                    sources.country_flags@,
                    sources.country_currencies@,
                    sources.continents@,
                ) is None,
            },
    {
        let countries = match parse(sources.countries.as_str()) {
            Ok(value) => value,
            Err(_) => { return Err(IpError::new(IpErrorKind::ReferenceDataError, None)); },
        };
        let eu = match parse(sources.eu.as_str()) {
            Ok(value) => value,
            Err(_) => { return Err(IpError::new(IpErrorKind::ReferenceDataError, None)); },
        };
        let flags = match parse(sources.country_flags.as_str()) {
            Ok(value) => value,
            Err(_) => { return Err(IpError::new(IpErrorKind::ReferenceDataError, None)); },
        };
        let currencies = match parse(sources.country_currencies.as_str()) {
            Ok(value) => value,
            Err(_) => { return Err(IpError::new(IpErrorKind::ReferenceDataError, None)); },
        };
        let continents = match parse(sources.continents.as_str()) {
            Ok(value) => value,
            Err(_) => { return Err(IpError::new(IpErrorKind::ReferenceDataError, None)); },
        };
        match ReferenceData::from_documents(&countries, &eu, &flags, &currencies, &continents) {
            Some(data) => Ok(data),
            None => Err(IpError::new(IpErrorKind::ReferenceDataError, None)),
        }
    }

    /// The name of a country.
    pub fn country_name(&self, code: &str) -> (found: Option<String>)
        ensures
            match found {
                Some(name) => self@.names.contains_key(code@) && name@ == self@.names[code@],
                None => !self@.names.contains_key(code@),
            },
    {
        match self.countries.get(code) {
            Some(name) => Some(name.clone()),
            None => None,
        }
    }

    /// The flag of a country.
    pub fn country_flag(&self, code: &str) -> (found: Option<CountryFlag>)
        ensures
            match found {
                Some(flag) => self@.flags.contains_key(code@) && flag@ == self@.flags[code@],
                None => !self@.flags.contains_key(code@),
            },
    {
        match self.country_flags.get(code) {
            Some(flag) => Some(flag.clone()),
            None => None,
        }
    }

    /// The currency of a country.
    pub fn country_currency(&self, code: &str) -> (found: Option<CountryCurrency>)
        ensures
            match found {
                Some(currency) => self@.currencies.contains_key(code@) && currency@
                    == self@.currencies[code@],
                None => !self@.currencies.contains_key(code@),
            },
    {
        match self.country_currencies.get(code) {
            Some(currency) => Some(currency.clone()),
            None => None,
        }
    }

    /// The continent of a country.
    pub fn continent(&self, code: &str) -> (found: Option<Continent>)
        ensures
            match found {
                Some(continent) => self@.continents.contains_key(code@) && continent@
                    == self@.continents[code@],
                None => !self@.continents.contains_key(code@),
            },
    {
        match self.continents.get(code) {
            Some(continent) => Some(continent.clone()),
            None => None,
        }
    }

    /// Is the country a member of the European Union?
    pub fn is_eu(&self, code: &str) -> (member: bool)
        ensures
            member == self@.eu.contains(code@),
    {
        let wanted = code.to_owned();
        let mut i: usize = 0;
        while i < self.eu.len()
            invariant
                wanted@ == code@,
                0 <= i <= self.eu.len(),
                forall|k: int| 0 <= k < i ==> (#[trigger] self.eu@[k])@ != code@,
            decreases self.eu.len() - i,
        {
            if self.eu[i] == wanted {
                return true;
            }
            i = i + 1;
        }
        false
    }

    /// Do all four tables know the country?
    pub fn covers(&self, code: &str) -> (known: bool)
        ensures
            known == covers(self@, code@),
    {
        self.countries.contains_key(code) && self.country_flags.contains_key(code)
            && self.country_currencies.contains_key(code) && self.continents.contains_key(code)
    }

    /// Can the record be enriched: has it no country, or one that all four
    /// tables know?
    pub fn can_enrich(&self, record: &IpDetails) -> (known: bool)
        ensures
            known == (record@.country.len() == 0 || covers(self@, record@.country)),
    {
        record.country.as_str().is_empty() || self.covers(record.country.as_str())
    }

    /// Enriches a record: where it names a country, its derived fields are
    /// set from the tables. The country must be one that the tables know.
    pub fn enrich(&self, record: &mut IpDetails)
        requires
            old(record)@.country.len() == 0 || covers(self@, old(record)@.country),
        ensures
            final(record)@ == enriched_record(self@, old(record)@),
    {
        if !record.country.as_str().is_empty() {
            let name = self.country_name(record.country.as_str());
            let member = self.is_eu(record.country.as_str());
            let flag = self.country_flag(record.country.as_str());
            let currency = self.country_currency(record.country.as_str());
            let continent = self.continent(record.country.as_str());
            record.country_name = name;
            record.is_eu = Some(member);
            record.country_flag = flag;
            record.country_currency = currency;
            record.continent = continent;
        }
    }
}

} // verus!
