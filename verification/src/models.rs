//! The data model: topics, language codes, entries, counters and errors.

use vstd::prelude::*;

verus! {

/// The closed set of topic categories an entry may carry.
#[derive(Clone, Copy, PartialEq, Eq, Structural, Debug, Hash)]
pub enum Topic {
    Nature,
    Animals,
    Plants,
    Body,
    Food,
    Family,
    Society,
    Abstract,
}

/// The closed set of supported language codes, in feed column order.
#[derive(Clone, Copy, PartialEq, Eq, Structural, Debug, Hash)]
pub enum LanguageCode {
    Lat,
    Iro,
    Por,
    Spa,
    Cat,
    Occ,
    Fra,
    Srd,
    Ita,
    Rom,
    Eng,
    Fol,
    Frk,
    Sla,
}

/// Every supported language code, in feed column order.
pub open spec fn all_langs() -> Seq<LanguageCode> {
    seq![
        LanguageCode::Lat,
        LanguageCode::Iro,
        LanguageCode::Por,
        LanguageCode::Spa,
        LanguageCode::Cat,
        LanguageCode::Occ,
        LanguageCode::Fra,
        LanguageCode::Srd,
        LanguageCode::Ita,
        LanguageCode::Rom,
        LanguageCode::Eng,
        LanguageCode::Fol,
        LanguageCode::Frk,
        LanguageCode::Sla,
    ]
}

impl LanguageCode {
    /// Every supported language code, in feed column order.
    pub fn all() -> (r: Vec<LanguageCode>)
        ensures
            r@ == all_langs(),
    {
        let mut r: Vec<LanguageCode> = Vec::new();
        r.push(LanguageCode::Lat);
        r.push(LanguageCode::Iro);
        r.push(LanguageCode::Por);
        r.push(LanguageCode::Spa);
        r.push(LanguageCode::Cat);
        r.push(LanguageCode::Occ);
        r.push(LanguageCode::Fra);
        r.push(LanguageCode::Srd);
        r.push(LanguageCode::Ita);
        r.push(LanguageCode::Rom);
        r.push(LanguageCode::Eng);
        r.push(LanguageCode::Fol);
        r.push(LanguageCode::Frk);
        r.push(LanguageCode::Sla);
        proof {
            assert(r@ =~= all_langs());
        }
        r
    }
}

/// The error kinds the library surfaces.
#[derive(Clone, Copy, PartialEq, Eq, Structural, Debug)]
pub enum ApiError {
    /// The fetch collaborator could not deliver the feed text.
    FetchFailed,
    /// The counters row is absent, or a required counter column is missing.
    MissingHeaders,
    /// A counter cell is non-numeric after separator stripping.
    MalformedNumber,
    /// No entry with the given id is in the current dataset.
    EntryNotFound(u32),
}

/// Aggregate record counts published by the feed's counters row.
#[derive(Clone, Copy, PartialEq, Eq, Structural, Debug)]
pub struct Counters {
    pub total: u32,
    pub sem: u32,
    pub lat: u32,
    pub iro: u32,
    pub por: u32,
    pub spa: u32,
    pub cat: u32,
    pub occ: u32,
    pub fra: u32,
    pub srd: u32,
    pub ita: u32,
    pub rom: u32,
    pub eng: u32,
    pub fol: u32,
    pub frk: u32,
    pub sla: u32,
}

/// One raw feed record in fixed column order, before conversion to an entry.
#[derive(Debug, PartialEq, Eq)]
pub struct RawEntry {
    pub id: u32,
    pub sem_id: Option<u32>,
    pub category: Option<String>,
    pub topic: Option<Topic>,
    pub sub_topic: Option<String>,
    pub sub_sub_topic: Option<String>,
    pub essential_flag: Option<String>,
    pub basic_flag: Option<String>,
    pub lat: Option<String>,
    pub iro: Option<String>,
    pub por: Option<String>,
    pub spa: Option<String>,
    pub cat: Option<String>,
    pub occ: Option<String>,
    pub fra: Option<String>,
    pub srd: Option<String>,
    pub ita: Option<String>,
    pub rom: Option<String>,
    pub eng: Option<String>,
    pub fol: Option<String>,
    pub frk: Option<String>,
    pub sla: Option<String>,
}

/// One dictionary record, keyed by `id`.
#[derive(Debug, PartialEq, Eq)]
pub struct Entry {
    pub id: u32,
    pub sem_id: Option<u32>,
    pub topic: Option<Topic>,
    pub essential_flag: bool,
    pub basic_flag: bool,
    pub lat: Option<String>,
    pub iro: Option<String>,
    pub por: Option<String>,
    pub spa: Option<String>,
    pub cat: Option<String>,
    pub occ: Option<String>,
    pub fra: Option<String>,
    pub srd: Option<String>,
    pub ita: Option<String>,
    pub rom: Option<String>,
    pub eng: Option<String>,
    pub fol: Option<String>,
    pub frk: Option<String>,
    pub sla: Option<String>,
}

/// Entry ids are unique across the sequence.
pub open spec fn ids_unique(s: Seq<Entry>) -> bool {
    forall|i: int, j: int|
        #![trigger s[i].id, s[j].id]
        0 <= i < j < s.len() ==> s[i].id != s[j].id
}

/// Whether some entry of the sequence carries the given id.
pub open spec fn has_id(s: Seq<Entry>, id: u32) -> bool {
    exists|k: int| 0 <= k < s.len() && (#[trigger] s[k]).id == id
}

/// Whether some entry of the vector carries the given id.
pub fn contains_id(entries: &Vec<Entry>, id: u32) -> (r: bool)
    ensures
        r == has_id(entries@, id),
{
    let mut k: usize = 0;
    while k < entries.len()
        invariant
            k <= entries@.len(),
            forall|j: int| 0 <= j < k ==> (#[trigger] entries@[j]).id != id,
        decreases entries@.len() - k,
    {
        if entries[k].id == id {
            return true;
        }
        k = k + 1;
    }
    false
}

/// Whether two string slices hold the same characters.
pub fn str_eq(a: &str, b: &str) -> (r: bool)
    ensures
        r == (a@ == b@),
{
    let ao: String = a.to_owned();
    let bo: String = b.to_owned();
    ao == bo
}

/// Whether the string slice is empty.
pub fn str_is_empty(s: &str) -> (r: bool)
    ensures
        r == (s@.len() == 0),
{
    s.is_empty()
}

/// View of an optional text field.
pub open spec fn opt_view(o: Option<String>) -> Option<Seq<char>> {
    match o {
        Some(s) => Some(s@),
        None => None,
    }
}

/// How an optional field reads a cell: empty means absent.
pub open spec fn opt_str_matches(f: Option<String>, cell: Seq<char>) -> bool {
    match f {
        None => cell.len() == 0,
        Some(s) => cell.len() > 0 && s@ == cell,
    }
}

/// An optional field from a cell: empty means absent.
pub fn cell_opt(cell: &String) -> (r: Option<String>)
    ensures
        opt_str_matches(r, cell@),
{
    if str_is_empty(cell.as_str()) {
        None
    } else {
        Some(cell.clone())
    }
}

/// The marker-flag reading: the cell holds exactly the marker text.
pub open spec fn is_marker(f: Option<String>, m: Seq<char>) -> bool {
    match f {
        Some(s) => s@ == m,
        None => false,
    }
}

/// The topic a cell names, if any; unknown names degrade to absent.
pub open spec fn spec_topic_of(s: Seq<char>) -> Option<Topic> {
    if s == "nature"@ {
        Some(Topic::Nature)
    } else if s == "animals"@ {
        Some(Topic::Animals)
    } else if s == "plants"@ {
        Some(Topic::Plants)
    } else if s == "body"@ {
        Some(Topic::Body)
    } else if s == "food"@ {
        Some(Topic::Food)
    } else if s == "family"@ {
        Some(Topic::Family)
    } else if s == "society"@ {
        Some(Topic::Society)
    } else if s == "abstract"@ {
        Some(Topic::Abstract)
    } else {
        None
    }
}

/// The topic a cell names, if it names one of the closed set.
pub fn topic_from_str(s: &str) -> (r: Option<Topic>)
    ensures
        r == spec_topic_of(s@),
{
    if str_eq(s, "nature") {
        Some(Topic::Nature)
    } else if str_eq(s, "animals") {
        Some(Topic::Animals)
    } else if str_eq(s, "plants") {
        Some(Topic::Plants)
    } else if str_eq(s, "body") {
        Some(Topic::Body)
    } else if str_eq(s, "food") {
        Some(Topic::Food)
    } else if str_eq(s, "family") {
        Some(Topic::Family)
    } else if str_eq(s, "society") {
        Some(Topic::Society)
    } else if str_eq(s, "abstract") {
        Some(Topic::Abstract)
    } else {
        None
    }
}

/// A field-for-field copy of an optional string.
fn clone_opt(o: &Option<String>) -> (r: Option<String>)
    ensures
        r == *o,
{
    match o {
        Some(s) => Some(s.clone()),
        None => None,
    }
}

impl Clone for Entry {
    /// A field-for-field copy of the entry.
    fn clone(&self) -> (r: Self)
        ensures
            r == *self,
    {
        Entry {
            id: self.id,
            sem_id: self.sem_id,
            topic: self.topic,
            essential_flag: self.essential_flag,
            basic_flag: self.basic_flag,
            lat: clone_opt(&self.lat),
            iro: clone_opt(&self.iro),
            por: clone_opt(&self.por),
            spa: clone_opt(&self.spa),
            cat: clone_opt(&self.cat),
            occ: clone_opt(&self.occ),
            fra: clone_opt(&self.fra),
            srd: clone_opt(&self.srd),
            ita: clone_opt(&self.ita),
            rom: clone_opt(&self.rom),
            eng: clone_opt(&self.eng),
            fol: clone_opt(&self.fol),
            frk: clone_opt(&self.frk),
            sla: clone_opt(&self.sla),
        }
    }
}

impl Entry {
    /// The text the entry holds for language `l`.
    pub open spec fn lang_text(self, l: LanguageCode) -> Option<Seq<char>> {
        match l {
            LanguageCode::Lat => opt_view(self.lat),
            LanguageCode::Iro => opt_view(self.iro),
            LanguageCode::Por => opt_view(self.por),
            LanguageCode::Spa => opt_view(self.spa),
            LanguageCode::Cat => opt_view(self.cat),
            LanguageCode::Occ => opt_view(self.occ),
            LanguageCode::Fra => opt_view(self.fra),
            LanguageCode::Srd => opt_view(self.srd),
            LanguageCode::Ita => opt_view(self.ita),
            LanguageCode::Rom => opt_view(self.rom),
            LanguageCode::Eng => opt_view(self.eng),
            LanguageCode::Fol => opt_view(self.fol),
            LanguageCode::Frk => opt_view(self.frk),
            LanguageCode::Sla => opt_view(self.sla),
        }
    }

    /// Shared borrow of the text field for language `l`.
    pub fn lang_field(&self, l: LanguageCode) -> (r: &Option<String>)
        ensures
            opt_view(*r) == self.lang_text(l),
    {
        match l {
            LanguageCode::Lat => &self.lat,
            LanguageCode::Iro => &self.iro,
            LanguageCode::Por => &self.por,
            LanguageCode::Spa => &self.spa,
            LanguageCode::Cat => &self.cat,
            LanguageCode::Occ => &self.occ,
            LanguageCode::Fra => &self.fra,
            LanguageCode::Srd => &self.srd,
            LanguageCode::Ita => &self.ita,
            LanguageCode::Rom => &self.rom,
            LanguageCode::Eng => &self.eng,
            LanguageCode::Fol => &self.fol,
            LanguageCode::Frk => &self.frk,
            LanguageCode::Sla => &self.sla,
        }
    }

    /// Whether some listed language field holds exactly `text`.
    pub open spec fn spec_matches(self, text: Seq<char>, langs: Seq<LanguageCode>) -> bool {
        exists|i: int| 0 <= i < langs.len() && self.lang_text(#[trigger] langs[i]) == Some(text)
    }

    /// Case-sensitive whole-field match over the given languages.
    pub fn matches(&self, text: &str, langs: &Vec<LanguageCode>) -> (r: bool)
        ensures
            r == self.spec_matches(text@, langs@),
    {
        let mut i: usize = 0;
        while i < langs.len()
            invariant
                i <= langs@.len(),
                forall|j: int| 0 <= j < i ==> self.lang_text(#[trigger] langs@[j]) != Some(text@),
            decreases langs@.len() - i,
        {
            match self.lang_field(langs[i]) {
                Some(s) => {
                    if str_eq(s.as_str(), text) {
                        proof {
                            assert(self.lang_text(langs@[i as int]) == Some(text@));
                        }
                        return true;
                    }
                }
                None => {},
            }
            i = i + 1;
        }
        false
    }

    /// Convert a structurally valid raw record into an entry: the marker
    /// cells collapse to booleans, everything else carries over.
    pub fn from_raw(raw: RawEntry) -> (e: Entry)
        ensures
            e.id == raw.id,
            e.sem_id == raw.sem_id,
            e.topic == raw.topic,
            e.essential_flag == is_marker(raw.essential_flag, "e"@),
            e.basic_flag == is_marker(raw.basic_flag, "b"@),
            e.lat == raw.lat,
            e.iro == raw.iro,
            e.por == raw.por,
            e.spa == raw.spa,
            e.cat == raw.cat,
            e.occ == raw.occ,
            e.fra == raw.fra,
            e.srd == raw.srd,
            e.ita == raw.ita,
            e.rom == raw.rom,
            e.eng == raw.eng,
            e.fol == raw.fol,
            e.frk == raw.frk,
            e.sla == raw.sla,
    {
        let essential_flag: bool = match &raw.essential_flag {
            Some(s) => str_eq(s.as_str(), "e"),
            None => false,
        };
        let basic_flag: bool = match &raw.basic_flag {
            Some(s) => str_eq(s.as_str(), "b"),
            None => false,
        };
        Entry {
            id: raw.id,
            sem_id: raw.sem_id,
            topic: raw.topic,
            essential_flag,
            basic_flag,
            lat: raw.lat,
            iro: raw.iro,
            por: raw.por,
            spa: raw.spa,
            cat: raw.cat,
            occ: raw.occ,
            fra: raw.fra,
            srd: raw.srd,
            ita: raw.ita,
            rom: raw.rom,
            eng: raw.eng,
            fol: raw.fol,
            frk: raw.frk,
            sla: raw.sla,
        }
    }
}

} // verus!
