//! The secondary metadata source: descriptions and details of arcade games, keyed by
//! ROM short name.

use vstd::prelude::*;
use quick_xml::events::Event;
use quick_xml::Reader;
use crate::dat_parser::{clone_opt_string, opt_text};

use crate::str_map::StrMap;

pub use crate::text::pair_texts;
use crate::text::chars_of;

verus! {

/// The details of one game as a mathematical value.
pub struct MameGameModel {
    pub name: Seq<char>,
    pub description: Seq<char>,
    pub year: Option<Seq<char>>,
    pub manufacturer: Option<Seq<char>>,
    pub clone_of: Option<Seq<char>>,
    pub rom_of: Option<Seq<char>>,
}

/// The details of one game.
#[derive(Debug)]
pub struct MameGameInfo {
    pub name: String,
    pub description: String,
    pub year: Option<String>,
    pub manufacturer: Option<String>,
    pub clone_of: Option<String>,
    pub rom_of: Option<String>,
}

impl View for MameGameInfo {
    type V = MameGameModel;

    open spec fn view(&self) -> MameGameModel {
        MameGameModel {
            name: self.name@,
            description: self.description@,
            year: opt_text(self.year),
            manufacturer: opt_text(self.manufacturer),
            clone_of: opt_text(self.clone_of),
            rom_of: opt_text(self.rom_of),
        }
    }
}

impl Clone for MameGameInfo {
    fn clone(&self) -> (r: Self)
        ensures
            r@ == self@,
    {
        MameGameInfo {
            name: self.name.clone(),
            description: self.description.clone(),
            year: clone_opt_string(&self.year),
            manufacturer: clone_opt_string(&self.manufacturer),
            clone_of: clone_opt_string(&self.clone_of),
            rom_of: clone_opt_string(&self.rom_of),
        }
    }
}

/// Descriptions and details of games by ROM short name.
pub struct MameXmlDatabase {
    /// ROM short name to description.
    pub rom_to_description: StrMap<String>,
    /// ROM short name to details.
    pub rom_metadata: StrMap<MameGameInfo>,
}

impl MameXmlDatabase {
    /// Both tables are well formed.
    pub open spec fn wf(&self) -> bool {
        self.rom_to_description.wf() && self.rom_metadata.wf()
    }

    /// The description of each ROM short name.
    pub open spec fn descriptions(&self) -> Map<Seq<char>, Seq<char>> {
        self.rom_to_description@.map_values(|d: String| d@)
    }

    /// The details of each ROM short name.
    pub open spec fn details(&self) -> Map<Seq<char>, MameGameModel> {
        self.rom_metadata@.map_values(|g: MameGameInfo| g@)
    }

    /// An empty database: no description and no details, and so no name in the
    /// order of arrival.
    pub fn new() -> (db: Self)
        ensures
            db.wf(),
            db.descriptions() == Map::<Seq<char>, Seq<char>>::empty(),
            db.details() == Map::<Seq<char>, MameGameModel>::empty(),
            db.rom_to_description.key_seq() == Seq::<Seq<char>>::empty(),
            db.rom_metadata.key_seq() == Seq::<Seq<char>>::empty(),
    {
        let db = MameXmlDatabase { rom_to_description: StrMap::new(), rom_metadata: StrMap::new() };
        assert(db.descriptions() =~= Map::<Seq<char>, Seq<char>>::empty());
        assert(db.details() =~= Map::<Seq<char>, MameGameModel>::empty());
        db
    }

    /// The description of `rom_name`.
    pub fn get_description(&self, rom_name: &str) -> (r: Option<&str>)
        requires
            self.wf(),
        ensures
            r is Some <==> self.descriptions().contains_key(rom_name@),
            r matches Some(d) ==> d@ == self.descriptions()[rom_name@],
    {
        match self.rom_to_description.get(rom_name) {
            Some(d) => Some(d.as_str()),
            None => None,
        }
    }

    /// The details of `rom_name`.
    pub fn get_game_info(&self, rom_name: &str) -> (r: Option<&MameGameInfo>)
        requires
            self.wf(),
        ensures
            r is Some <==> self.details().contains_key(rom_name@),
            r matches Some(g) ==> g@ == self.details()[rom_name@],
    {
        self.rom_metadata.get(rom_name)
    }

    /// Every ROM short name that has a description, in the order of arrival.
    pub fn get_all_rom_names(&self) -> (r: Vec<&str>)
        requires
            self.wf(),
        ensures
            r@.len() == self.rom_to_description.key_seq().len(),
            forall|i: int| 0 <= i < r@.len() ==> (#[trigger] r@[i])@ == self.rom_to_description.key_seq()[i],
    {
        let mut r: Vec<&str> = Vec::new();
        let mut i: usize = 0;
        let n = self.rom_to_description.len();
        while i < n
            invariant
                self.wf(),
                i <= n,
                n == self.rom_to_description.key_seq().len(),
                r@.len() == i,
                forall|j: int| 0 <= j < i ==> (#[trigger] r@[j])@ == self.rom_to_description.key_seq()[j],
            decreases n - i,
        {
            r.push(self.rom_to_description.key_at(i).as_str());
            i += 1;
        }
        r
    }

    /// Whether `rom_name` has a description.
    pub fn contains_rom(&self, rom_name: &str) -> (r: bool)
        requires
            self.wf(),
        ensures
            r == self.descriptions().contains_key(rom_name@),
    {
        self.rom_to_description.contains_key(rom_name)
    }

    /// The number of descriptions and the number of detail records.
    pub fn stats(&self) -> (r: (usize, usize))
        requires
            self.wf(),
        ensures
            r.0 == self.descriptions().len(),
            r.1 == self.details().len(),
    {
        proof {
            self.rom_to_description.lemma_view();
            self.rom_metadata.lemma_view();
            assert(self.descriptions().dom() =~= self.rom_to_description@.dom());
            assert(self.details().dom() =~= self.rom_metadata@.dom());
        }
        (self.rom_to_description.len(), self.rom_metadata.len())
    }
}

#[verifier::external_type_specification]
#[verifier::external_body]
#[verifier::reject_recursive_types(R)]
pub struct ExReader<R>(Reader<R>);

/// One event of a markup document as a mathematical value.
pub enum XmlRow {
    Start { name: Seq<char>, attributes: Seq<(Seq<char>, Seq<char>)> },
    Text(Seq<char>),
    End(Seq<char>),
    Eof,
    Other,
    Failed(Seq<char>),
    BadText(Seq<char>),
}

/// One event of a markup document: the start of an element with its attributes, a
/// text, the end of an element, the end of the document, something else, a
/// failure of the reader, or a text whose escapes cannot be resolved.
#[derive(Debug)]
pub enum XmlEvent {
    Start { name: String, attributes: Vec<(String, String)> },
    Text(String),
    End(String),
    Eof,
    Other,
    Failed(String),
    BadText(String),
}

impl View for XmlEvent {
    type V = XmlRow;

    open spec fn view(&self) -> XmlRow {
        match self {
            XmlEvent::Start { name, attributes } => XmlRow::Start {
                name: name@,
                attributes: pair_texts(attributes@),
            },
            XmlEvent::Text(t) => XmlRow::Text(t@),
            XmlEvent::End(n) => XmlRow::End(n@),
            XmlEvent::Eof => XmlRow::Eof,
            XmlEvent::Other => XmlRow::Other,
            XmlEvent::Failed(e) => XmlRow::Failed(e@),
            XmlEvent::BadText(e) => XmlRow::BadText(e@),
        }
    }
}

/// The document that a reader reads, and the number of events that it has given.
pub uninterp spec fn reading(r: Reader<&[u8]>) -> (Seq<char>, nat);

/// Event number `k` of the document `content`, counted from zero, as the crate
/// `quick-xml` reads it where white space around texts is trimmed: names and
/// values decoded as UTF-8, texts unescaped, attributes that cannot be read left
/// out.
pub uninterp spec fn xml_event_at(content: Seq<char>, k: nat) -> XmlRow;

/// `quick_xml::Reader::from_str` with `trim_text(true)`: a reader at the start of
/// the document, which trims the white space around texts.
#[verifier::external_body]
fn xml_reader<'a>(content: &'a str) -> (r: Reader<&'a [u8]>)
    ensures
        reading(r) == (content@, 0nat),
{
    let mut reader = Reader::from_str(content);
    reader.config_mut().trim_text(true);
    reader
}

/// `String::from_utf8_lossy`: the bytes as text, with the replacement character for
/// what is no UTF-8.
#[verifier::external_body]
fn lossy(bytes: &[u8]) -> String {
    String::from_utf8_lossy(bytes).to_string()
}

/// `quick_xml::Reader::read_event`: the next event of the document, names and
/// values decoded as UTF-8, texts unescaped, attributes that cannot be read left
/// out. A text that cannot be unescaped is told apart from a failure of the
/// reader.
#[verifier::external_body]
fn next_xml_event<'a>(reader: &mut Reader<&'a [u8]>) -> (e: XmlEvent)
    ensures
        reading(*final(reader)) == (reading(*old(reader)).0, reading(*old(reader)).1 + 1),
        e@ == xml_event_at(reading(*old(reader)).0, reading(*old(reader)).1),
{
    match reader.read_event() {
        Ok(Event::Start(e)) => XmlEvent::Start {
            name: lossy(e.name().as_ref()),
            attributes: e.attributes().flatten().map(|a| (lossy(a.key.as_ref()), lossy(&a.value))).collect(),
        },
        Ok(Event::Text(e)) => match e.unescape() {
            Ok(t) => XmlEvent::Text(t.to_string()),
            Err(err) => XmlEvent::BadText(err.to_string()),
        },
        Ok(Event::End(e)) => XmlEvent::End(lossy(e.name().as_ref())),
        Ok(Event::Eof) => XmlEvent::Eof,
        Ok(_) => XmlEvent::Other,
        Err(err) => XmlEvent::Failed(err.to_string()),
    }
}

/// The value that the attributes give for `key`: the one given last.
pub open spec fn attribute(attrs: Seq<(Seq<char>, Seq<char>)>, key: Seq<char>) -> Option<Seq<char>>
    decreases attrs.len(),
{
    if attrs.len() == 0 {
        None
    } else if attrs.last().0 == key {
        Some(attrs.last().1)
    } else {
        attribute(attrs.drop_last(), key)
    }
}

/// The game that the start of a `game` element opens.
pub open spec fn opened_game(attrs: Seq<(Seq<char>, Seq<char>)>) -> MameGameModel {
    MameGameModel {
        name: match attribute(attrs, "name"@) {
            Some(n) => n,
            None => Seq::empty(),
        },
        description: Seq::empty(),
        year: None,
        manufacturer: None,
        clone_of: attribute(attrs, "cloneof"@),
        rom_of: attribute(attrs, "romof"@),
    }
}

/// What the reader of the metadata document holds between two events.
pub struct ParseModel {
    pub descriptions: Map<Seq<char>, Seq<char>>,
    pub details: Map<Seq<char>, MameGameModel>,
    pub game: Option<MameGameModel>,
    pub text: Seq<char>,
}

/// The state after one more event. The start of a `game` element opens a game; a
/// text is remembered; the end of an element inside a game gives the remembered
/// text to the description, the year or the manufacturer, or closes the game,
/// which is recorded if it has a name and a description; every end of an element
/// forgets the text.
pub open spec fn after_event(s: ParseModel, e: XmlRow) -> ParseModel {
    match e {
        XmlRow::Start { name, attributes } => if name == "game"@ {
            ParseModel { game: Some(opened_game(attributes)), ..s }
        } else {
            s
        },
        XmlRow::Text(t) => ParseModel { text: t, ..s },
        XmlRow::End(name) => match s.game {
            None => ParseModel { text: Seq::empty(), ..s },
            Some(g) => if name == "description"@ {
                ParseModel {
                    game: Some(MameGameModel { description: s.text, ..g }),
                    text: Seq::empty(),
                    ..s
                }
            } else if name == "year"@ {
                ParseModel {
                    game: Some(MameGameModel { year: Some(s.text), ..g }),
                    text: Seq::empty(),
                    ..s
                }
            } else if name == "manufacturer"@ {
                ParseModel {
                    game: Some(MameGameModel { manufacturer: Some(s.text), ..g }),
                    text: Seq::empty(),
                    ..s
                }
            } else if name == "game"@ {
                if g.name.len() > 0 && g.description.len() > 0 {
                    ParseModel {
                        descriptions: s.descriptions.insert(g.name, g.description),
                        details: s.details.insert(g.name, g),
                        game: None,
                        text: Seq::empty(),
                    }
                } else {
                    ParseModel { game: None, text: Seq::empty(), ..s }
                }
            } else {
                ParseModel { text: Seq::empty(), ..s }
            },
        },
        _ => s,
    }
}

/// The state before any event.
pub open spec fn parse_start() -> ParseModel {
    ParseModel {
        descriptions: Map::empty(),
        details: Map::empty(),
        game: None,
        text: Seq::empty(),
    }
}

/// The outcome of reading the first `n` events: the state after them, or the first
/// failure. The end of the document ends the reading.
pub open spec fn after_events(events: Seq<XmlRow>, n: int) -> Result<(ParseModel, bool), Seq<char>>
    decreases n,
{
    if n <= 0 {
        Ok((parse_start(), false))
    } else {
        match after_events(events, n - 1) {
            Err(e) => Err(e),
            Ok((s, done)) => if done {
                Ok((s, true))
            } else {
                match events[n - 1] {
                    XmlRow::Eof => Ok((s, true)),
                    XmlRow::Failed(e) => Err("Error parsing MAME XML: "@ + e),
                    XmlRow::BadText(e) => Err(e),
                    e => Ok((after_event(s, e), false)),
                }
            },
        }
    }
}

/// The events of a list as mathematical values.
pub open spec fn xml_rows(v: Seq<XmlEvent>) -> Seq<XmlRow> {
    v.map_values(|e: XmlEvent| e@)
}

/// The reader of the metadata document between two events.
pub struct ParseState {
    pub database: MameXmlDatabase,
    pub game: Option<MameGameInfo>,
    pub text: String,
}

impl View for ParseState {
    type V = ParseModel;

    open spec fn view(&self) -> ParseModel {
        ParseModel {
            descriptions: self.database.descriptions(),
            details: self.database.details(),
            game: match self.game {
                Some(g) => Some(g@),
                None => None,
            },
            text: self.text@,
        }
    }
}

/// The value that the attributes give for `key`.
pub fn find_attribute(attrs: &Vec<(String, String)>, key: &str) -> (r: Option<String>)
    ensures
        opt_text(r) == attribute(pair_texts(attrs@), key@),
{
    let ghost all = pair_texts(attrs@);
    let k = key.to_owned();
    let mut i: usize = attrs.len();
    assert(all.take(i as int) == all);
    while i > 0
        invariant
            i <= attrs.len(),
            all == pair_texts(attrs@),
            k@ == key@,
            attribute(all, key@) == attribute(all.take(i as int), key@),
        decreases i,
    {
        i -= 1;
        assert(all.take(i + 1).last() == (attrs@[i as int].0@, attrs@[i as int].1@));
        assert(all.take(i + 1).drop_last() == all.take(i as int));
        if attrs[i].0 == k {
            return Some(attrs[i].1.clone());
        }
    }
    None
}

/// Whether a string is the text `lit`.
pub fn string_is(s: &String, lit: &str) -> (r: bool)
    ensures
        r == (s@ == lit@),
{
    *s == lit.to_owned()
}

impl ParseState {
    /// The state before any event.
    pub fn new() -> (s: Self)
        ensures
            s.database.wf(),
            s@ == parse_start(),
    {
        ParseState { database: MameXmlDatabase::new(), game: None, text: String::new() }
    }

    /// Takes one more event.
    pub fn apply(self, event: &XmlEvent) -> (r: Self)
        requires
            self.database.wf(),
        ensures
            r.database.wf(),
            r@ == after_event(self@, event@),
    {
        let mut s = self;
        match event {
            XmlEvent::Start { name, attributes } => {
                if string_is(name, "game") {
                    let game_name = match find_attribute(attributes, "name") {
                        Some(n) => n,
                        None => String::new(),
                    };
                    s.game = Some(
                        MameGameInfo {
                            name: game_name,
                            description: String::new(),
                            year: None,
                            manufacturer: None,
                            clone_of: find_attribute(attributes, "cloneof"),
                            rom_of: find_attribute(attributes, "romof"),
                        },
                    );
                }
                s
            },
            XmlEvent::Text(t) => {
                s.text = t.clone();
                s
            },
            XmlEvent::End(name) => {
                let text = s.text;
                s.text = String::new();
                match s.game {
                    None => {
                        s.game = None;
                        s
                    },
                    Some(g) => {
                        let mut g = g;
                        if string_is(name, "description") {
                            g.description = text;
                            s.game = Some(g);
                        } else if string_is(name, "year") {
                            g.year = Some(text);
                            s.game = Some(g);
                        } else if string_is(name, "manufacturer") {
                            g.manufacturer = Some(text);
                            s.game = Some(g);
                        } else if string_is(name, "game") {
                            if g.name.as_str().unicode_len() > 0 && g.description.as_str().unicode_len()
                                > 0 {
                                let ghost d0 = s.database.descriptions();
                                let ghost m0 = s.database.details();
                                s.database.rom_to_description.insert(
                                    g.name.clone(),
                                    g.description.clone(),
                                );
                                let ghost gm = g@;
                                s.database.rom_metadata.insert(g.name.clone(), g);
                                assert(s.database.descriptions() =~= d0.insert(gm.name, gm.description));
                                assert(s.database.details() =~= m0.insert(gm.name, gm));
                            }
                            s.game = None;
                        } else {
                            s.game = Some(g);
                        }
                        s
                    },
                }
            },
            _ => s,
        }
    }
}

/// Whether reading stops at the event: the end of the document, or a failure.
pub open spec fn ends_reading(e: XmlRow) -> bool {
    e is Eof || e is Failed || e is BadText
}

/// How many events are read of the document `content` from event number `k` on,
/// that one counted, where `budget` more may follow it: up to the first at which
/// reading stops.
pub open spec fn reads(content: Seq<char>, k: nat, budget: nat) -> nat
    decreases budget,
{
    if ends_reading(xml_event_at(content, k)) || budget == 0 {
        k + 1
    } else {
        reads(content, k + 1, (budget - 1) as nat)
    }
}

/// The events that are read of the document `content`: up to the end of the
/// document or the first failure, and at most one more than `budget`.
pub open spec fn events_of(content: Seq<char>, budget: nat) -> Seq<XmlRow> {
    Seq::new(reads(content, 0, budget), |k: int| xml_event_at(content, k as nat))
}

impl MameXmlDatabase {
    /// The database that a sequence of events of the metadata document gives, or
    /// the first failure.
    pub fn parse_events(events: &Vec<XmlEvent>) -> (r: Result<Self, String>)
        ensures
            match after_events(xml_rows(events@), events@.len() as int) {
                Ok((s, _)) => r matches Ok(db) && db.wf() && db.descriptions() == s.descriptions
                    && db.details() == s.details,
                Err(e) => r matches Err(m) && m@ == e,
            },
    {
        let ghost all = xml_rows(events@);
        let n = events.len();
        let mut state = ParseState::new();
        let mut done = false;
        let mut i: usize = 0;
        while i < n
            invariant
                i <= n,
                n == events@.len(),
                all == xml_rows(events@),
                state.database.wf(),
                after_events(all, i as int) == Ok::<(ParseModel, bool), Seq<char>>((state@, done)),
            decreases n - i,
        {
            let event = &events[i];
            assert(event@ == all[i as int]);
            if !done {
                match event {
                    XmlEvent::Eof => {
                        done = true;
                    },
                    XmlEvent::Failed(e) => {
                        let mut m = chars_of("Error parsing MAME XML: ");
                        crate::split::push_str(&mut m, e.as_str());
                        proof {
                            lemma_events_stop(all, i + 1, n as int);
                        }
                        return Err(crate::text::string_of(m.as_slice()));
                    },
                    XmlEvent::BadText(e) => {
                        proof {
                            lemma_events_stop(all, i + 1, n as int);
                        }
                        return Err(e.clone());
                    },
                    other => {
                        state = state.apply(other);
                    },
                }
            }
            i += 1;
        }
        Ok(state.database)
    }

    /// The database that the metadata document `content` gives, or the first
    /// failure: that of the events read from the document.
    pub fn parse_xml_content(content: &str) -> (r: Result<Self, String>)
        ensures
            ({
                let events = events_of(content@, content@.len());
                match after_events(events, events.len() as int) {
                    Ok((s, _)) => r matches Ok(db) && db.wf() && db.descriptions() == s.descriptions
                        && db.details() == s.details,
                    Err(e) => r matches Err(m) && m@ == e,
                }
            }),
    {
        let mut reader = xml_reader(content);
        let mut events: Vec<XmlEvent> = Vec::new();
        let mut budget: usize = chars_of(content).len();
        let mut open = true;
        let ghost total = reads(content@, 0, content@.len());
        assert(xml_rows(events@) =~= Seq::new(0nat, |k: int| xml_event_at(content@, k as nat)));
        while open
            invariant
                reading(reader) == (content@, events@.len() as nat),
                xml_rows(events@) == Seq::new(
                    events@.len(),
                    |k: int| xml_event_at(content@, k as nat),
                ),
                open ==> total == reads(content@, events@.len() as nat, budget as nat),
                !open ==> total == events@.len(),
            decreases budget + if open { 1int } else { 0int },
        {
            let ghost before = xml_rows(events@);
            let event = next_xml_event(&mut reader);
            let last = match &event {
                XmlEvent::Eof => true,
                XmlEvent::Failed(_) => true,
                XmlEvent::BadText(_) => true,
                _ => false,
            };
            assert(last == ends_reading(event@));
            events.push(event);
            assert(xml_rows(events@) =~= before.push(event@));
            assert(xml_rows(events@) =~= Seq::new(
                events@.len(),
                |k: int| xml_event_at(content@, k as nat),
            ));
            if last || budget == 0 {
                open = false;
            } else {
                budget -= 1;
            }
        }
        assert(xml_rows(events@) == events_of(content@, content@.len()));
        Self::parse_events(&events)
    }

    /// The built-in database, where one is built in: here there is none.
    pub fn load_embedded() -> (r: Result<Self, String>)
        ensures
            r matches Ok(db) && db.wf() && db.descriptions() == Map::<Seq<char>, Seq<char>>::empty()
                && db.details() == Map::<Seq<char>, MameGameModel>::empty(),
    {
        Ok(MameXmlDatabase::new())
    }
}

/// A reading that failed stays failed.
pub proof fn lemma_events_stop(events: Seq<XmlRow>, m: int, n: int)
    requires
        m <= n,
        after_events(events, m) is Err,
    ensures
        after_events(events, n) == after_events(events, m),
    decreases n - m,
{
    if m < n {
        lemma_events_stop(events, m, n - 1);
    }
}

impl Default for MameXmlDatabase {
    fn default() -> (db: Self)
        ensures
            db.wf(),
            db.descriptions() == Map::<Seq<char>, Seq<char>>::empty(),
            db.details() == Map::<Seq<char>, MameGameModel>::empty(),
            db.rom_to_description.key_seq() == Seq::<Seq<char>>::empty(),
            db.rom_metadata.key_seq() == Seq::<Seq<char>>::empty(),
    {
        MameXmlDatabase::new()
    }
}

} // verus!
