use vstd::prelude::*;
use vstd::string::*;

use crate::query::{is_valid_query_filter, query_terms, ItemType};
use crate::record::RatedRow;
use crate::stateful_list::StatefulList;

verus! {

/// Whether the browser's keys edit the filters or its configuration.
#[derive(Debug, Clone, Copy, PartialEq, Eq, Structural)]
pub enum InputMode {
    Querying,
    Configuring,
}

/// A message of the browser's log.
#[derive(Debug, Clone)]
pub enum Log {
    Error(String),
    Warn(String),
    Info(String),
    Debug(String),
}

/// The colours the browser draws with.
#[derive(Debug, Clone, Copy, PartialEq, Eq, Structural)]
pub enum Color {
    LightGreen,
    Green,
    LightYellow,
    Yellow,
    LightBlue,
    LightRed,
    Red,
    Blue,
    Gray,
}

impl Log {
    pub open spec fn spec_prefix(&self) -> Seq<char> {
        match self {
            Log::Error(_) => "ERR "@,
            Log::Warn(_) => "WARN"@,
            Log::Info(_) => "INFO"@,
            Log::Debug(_) => "DEBG"@,
        }
    }

    /// The four-letter tag that the log shows before the message.
    pub fn prefix(&self) -> (r: &'static str)
        ensures
            r@ == self.spec_prefix(),
    {
        match self {
            Log::Error(_) => "ERR ",
            Log::Warn(_) => "WARN",
            Log::Info(_) => "INFO",
            Log::Debug(_) => "DEBG",
        }
    }

    pub open spec fn spec_color(&self) -> Color {
        match self {
            Log::Error(_) => Color::Red,
            Log::Warn(_) => Color::Blue,
            Log::Info(_) => Color::Yellow,
            Log::Debug(_) => Color::Gray,
        }
    }

    /// The colour of the tag.
    pub fn color(&self) -> (r: Color)
        ensures
            r == self.spec_color(),
    {
        match self {
            Log::Error(_) => Color::Red,
            Log::Warn(_) => Color::Blue,
            Log::Info(_) => Color::Yellow,
            Log::Debug(_) => Color::Gray,
        }
    }

    /// The message.
    pub fn message(&self) -> (r: &str)
        ensures
            r@ == match self {
                Log::Error(m) => m@,
                Log::Warn(m) => m@,
                Log::Info(m) => m@,
                Log::Debug(m) => m@,
            },
    {
        match self {
            Log::Error(m) => m.as_str(),
            Log::Warn(m) => m.as_str(),
            Log::Info(m) => m.as_str(),
            Log::Debug(m) => m.as_str(),
        }
    }
}

pub open spec fn rating_color(rating: u32) -> Color {
    if rating >= 90 {
        Color::LightGreen
    } else if rating >= 80 {
        Color::Green
    } else if rating >= 70 {
        Color::LightYellow
    } else if rating >= 60 {
        Color::Yellow
    } else if rating >= 50 {
        Color::LightBlue
    } else {
        Color::LightRed
    }
}

/// The colour of a rating (times ten): greener the better.
pub fn get_rating_style(rating: u32) -> (r: Color)
    ensures
        r == rating_color(rating),
{
    if rating >= 90 {
        Color::LightGreen
    } else if rating >= 80 {
        Color::Green
    } else if rating >= 70 {
        Color::LightYellow
    } else if rating >= 60 {
        Color::Yellow
    } else if rating >= 50 {
        Color::LightBlue
    } else {
        Color::LightRed
    }
}

/// The lower-case form of `s`, as `str::to_lowercase` gives it.
pub uninterp spec fn lower_of(s: Seq<char>) -> Seq<char>;

/// Relies on `str::to_lowercase`: the lower-case form of `s`, which depends
/// on its characters alone.
#[verifier::external_body]
fn lowercase(s: &str) -> (r: String)
    ensures
        r@ == lower_of(s@),
{
    s.to_lowercase()
}

pub open spec fn short_type_of(lower: Seq<char>) -> Seq<char> {
    if lower == "movie"@ {
        "M"@
    } else if lower == "series"@ {
        "S"@
    } else {
        "X"@
    }
}

/// The one-letter tag of an already lower-cased type of title.
pub fn short_type_of_lowercase(lower: &str) -> (r: &'static str)
    ensures
        r@ == short_type_of(lower@),
{
    if crate::text::same_text(lower, "movie") {
        "M"
    } else if crate::text::same_text(lower, "series") {
        "S"
    } else {
        "X"
    }
}

/// The one-letter tag of a type of title, whatever its case.
pub fn shortened_type(typ: &str) -> (r: &'static str)
    ensures
        r@ == short_type_of(lower_of(typ@)),
{
    let lower = lowercase(typ);
    short_type_of_lowercase(lower.as_str())
}

pub open spec fn item_type_label_of(item_type: ItemType) -> Seq<char> {
    match item_type {
        ItemType::Movie => "Movies"@,
        ItemType::Series => "Series"@,
        ItemType::Both => "Movies and Series"@,
    }
}

/// How the browser names the titles that a listing shows.
pub fn item_type_label(item_type: &ItemType) -> (r: &'static str)
    ensures
        r@ == item_type_label_of(*item_type),
{
    match item_type {
        ItemType::Movie => "Movies",
        ItemType::Series => "Series",
        ItemType::Both => "Movies and Series",
    }
}

/// The column filters that the browser offers, in the order the tab key
/// walks them.
#[derive(Debug, Clone, Copy, PartialEq, Eq, Structural)]
pub enum QueryField {
    Genre,
    Title,
    Cast,
    Country,
    Language,
    Plot,
}

pub open spec fn field_index(f: QueryField) -> int {
    match f {
        QueryField::Genre => 0,
        QueryField::Title => 1,
        QueryField::Cast => 2,
        QueryField::Country => 3,
        QueryField::Language => 4,
        QueryField::Plot => 5,
    }
}

impl QueryField {
    pub open spec fn spec_label(&self) -> Seq<char> {
        match self {
            QueryField::Genre => "Genre"@,
            QueryField::Title => "Title"@,
            QueryField::Cast => "Cast"@,
            QueryField::Country => "Country"@,
            QueryField::Language => "Language"@,
            QueryField::Plot => "Plot"@,
        }
    }

    /// The name the browser shows for the filter.
    pub fn label(&self) -> (r: &'static str)
        ensures
            r@ == self.spec_label(),
    {
        match self {
            QueryField::Genre => "Genre",
            QueryField::Title => "Title",
            QueryField::Cast => "Cast",
            QueryField::Country => "Country",
            QueryField::Language => "Language",
            QueryField::Plot => "Plot",
        }
    }
}

/// The line of the configuration panel on which the input of `query_field`
/// stands.
pub fn query_offset(query_field: &QueryField) -> (r: u16)
    ensures
        r == 3 * field_index(*query_field) + 2,
{
    let index: u16 = match query_field {
        QueryField::Genre => 0,
        QueryField::Title => 1,
        QueryField::Cast => 2,
        QueryField::Country => 3,
        QueryField::Language => 4,
        QueryField::Plot => 5,
    };
    3 * index + 2
}

/// Relies on `String::push`: appends `c`.
#[verifier::external_body]
fn push_char(s: &mut String, c: char)
    ensures
        final(s)@ == old(s)@.push(c),
{
    s.push(c)
}

/// Relies on `String::pop`: removes the last character, if there is one.
#[verifier::external_body]
fn pop_char(s: &mut String) -> (r: Option<char>)
    ensures
        old(s)@.len() == 0 ==> r is None && final(s)@ == old(s)@,
        old(s)@.len() > 0 ==> r == Some(old(s)@.last()) && final(s)@ == old(s)@.drop_last(),
{
    s.pop()
}

/// The state of the terminal browser.
pub struct App {
    pub items: StatefulList<RatedRow>,
    pub query_field: QueryField,
    pub genre_query: String,
    pub title_query: String,
    pub cast_query: String,
    pub country_query: String,
    pub language_query: String,
    pub plot_query: String,
    pub item_type: ItemType,
    pub logs: Vec<Log>,
    pub input_mode: InputMode,
}

impl App {
    /// The text of the filter `f`.
    pub open spec fn query_of(&self, f: QueryField) -> Seq<char> {
        match f {
            QueryField::Genre => self.genre_query@,
            QueryField::Title => self.title_query@,
            QueryField::Cast => self.cast_query@,
            QueryField::Country => self.country_query@,
            QueryField::Language => self.language_query@,
            QueryField::Plot => self.plot_query@,
        }
    }

    /// `other` differs from `self` in the filter texts at most.
    pub open spec fn same_but_queries(&self, other: &App) -> bool {
        &&& other.items.items@ == self.items.items@
        &&& other.items.state == self.items.state
        &&& other.query_field == self.query_field
        &&& other.item_type == self.item_type
        &&& other.logs@ == self.logs@
        &&& other.input_mode == self.input_mode
    }

    pub fn new(rows: Vec<RatedRow>) -> (r: App)
        ensures
            r.items.items@ == rows@,
            r.items.state.selected is None,
            r.query_field == QueryField::Genre,
            forall|f: QueryField| r.query_of(f).len() == 0,
            r.item_type == ItemType::Both,
            r.logs@.len() == 0,
            r.input_mode == InputMode::Querying,
    {
        App {
            items: StatefulList::with_items(rows),
            query_field: QueryField::Genre,
            genre_query: String::new(),
            title_query: String::new(),
            cast_query: String::new(),
            country_query: String::new(),
            language_query: String::new(),
            plot_query: String::new(),
            item_type: ItemType::Both,
            logs: Vec::new(),
            input_mode: InputMode::Querying,
        }
    }

    /// Cycles movies, series, both.
    pub fn next_item_type(&mut self)
        ensures
            final(self).item_type == match old(self).item_type {
                ItemType::Movie => ItemType::Series,
                ItemType::Series => ItemType::Both,
                ItemType::Both => ItemType::Movie,
            },
            forall|f: QueryField| final(self).query_of(f) == old(self).query_of(f),
            final(self).query_field == old(self).query_field,
            final(self).items.items@ == old(self).items.items@,
            final(self).items.state == old(self).items.state,
            final(self).logs@ == old(self).logs@,
            final(self).input_mode == old(self).input_mode,
    {
        let next_type = match self.item_type {
            ItemType::Movie => ItemType::Series,
            ItemType::Series => ItemType::Both,
            ItemType::Both => ItemType::Movie,
        };
        self.item_type = next_type;
    }

    /// Moves to the next filter, from the last back to the first.
    pub fn next_query_field(&mut self)
        ensures
            field_index(final(self).query_field) == (field_index(old(self).query_field) + 1) % 6,
            forall|f: QueryField| final(self).query_of(f) == old(self).query_of(f),
            final(self).item_type == old(self).item_type,
            final(self).items.items@ == old(self).items.items@,
            final(self).items.state == old(self).items.state,
            final(self).logs@ == old(self).logs@,
            final(self).input_mode == old(self).input_mode,
    {
        let next_query_field = match self.query_field {
            QueryField::Genre => QueryField::Title,
            QueryField::Title => QueryField::Cast,
            QueryField::Cast => QueryField::Country,
            QueryField::Country => QueryField::Language,
            QueryField::Language => QueryField::Plot,
            QueryField::Plot => QueryField::Genre,
        };
        self.query_field = next_query_field
    }

    /// Moves to the previous filter, from the first back to the last.
    pub fn prev_query_field(&mut self)
        ensures
            field_index(final(self).query_field) == (field_index(old(self).query_field) + 5) % 6,
            forall|f: QueryField| final(self).query_of(f) == old(self).query_of(f),
            final(self).item_type == old(self).item_type,
            final(self).items.items@ == old(self).items.items@,
            final(self).items.state == old(self).items.state,
            final(self).logs@ == old(self).logs@,
            final(self).input_mode == old(self).input_mode,
    {
        let prev_query_field = match self.query_field {
            QueryField::Plot => QueryField::Language,
            QueryField::Country => QueryField::Cast,
            QueryField::Language => QueryField::Country,
            QueryField::Cast => QueryField::Title,
            QueryField::Title => QueryField::Genre,
            QueryField::Genre => QueryField::Plot,
        };
        self.query_field = prev_query_field
    }

    /// The text of the selected filter.
    pub fn get_query(&self) -> (r: &str)
        ensures
            r@ == self.query_of(self.query_field),
    {
        match self.query_field {
            QueryField::Genre => self.genre_query.as_str(),
            QueryField::Title => self.title_query.as_str(),
            QueryField::Cast => self.cast_query.as_str(),
            QueryField::Country => self.country_query.as_str(),
            QueryField::Language => self.language_query.as_str(),
            QueryField::Plot => self.plot_query.as_str(),
        }
    }

    /// Types `c` at the end of the selected filter.
    pub fn push_onto_query(&mut self, c: char)
        ensures
            old(self).same_but_queries(&*final(self)),
            forall|f: QueryField|
                final(self).query_of(f) == if f == old(self).query_field {
                    old(self).query_of(f).push(c)
                } else {
                    old(self).query_of(f)
                },
    {
        match self.query_field {
            QueryField::Genre => push_char(&mut self.genre_query, c),
            QueryField::Title => push_char(&mut self.title_query, c),
            QueryField::Cast => push_char(&mut self.cast_query, c),
            QueryField::Country => push_char(&mut self.country_query, c),
            QueryField::Language => push_char(&mut self.language_query, c),
            QueryField::Plot => push_char(&mut self.plot_query, c),
        };
    }

    /// Erases the last character of the selected filter, if it has one.
    pub fn pop_off_query(&mut self)
        ensures
            old(self).same_but_queries(&*final(self)),
            forall|f: QueryField|
                final(self).query_of(f) == if f == old(self).query_field && old(self).query_of(
                    f,
                ).len() > 0 {
                    old(self).query_of(f).drop_last()
                } else {
                    old(self).query_of(f)
                },
    {
        match self.query_field {
            QueryField::Genre => pop_char(&mut self.genre_query),
            QueryField::Title => pop_char(&mut self.title_query),
            QueryField::Cast => pop_char(&mut self.cast_query),
            QueryField::Country => pop_char(&mut self.country_query),
            QueryField::Language => pop_char(&mut self.language_query),
            QueryField::Plot => pop_char(&mut self.plot_query),
        };
    }

    /// Erases every filter.
    pub fn clear_all_queries(&mut self)
        ensures
            old(self).same_but_queries(&*final(self)),
            forall|f: QueryField| final(self).query_of(f).len() == 0,
    {
        self.genre_query = String::new();
        self.title_query = String::new();
        self.cast_query = String::new();
        self.country_query = String::new();
        self.language_query = String::new();
        self.plot_query = String::new();
    }

    /// Whether any filter has a term.
    pub fn has_any_query(&self) -> (r: bool)
        ensures
            r == exists|f: QueryField| query_terms(#[trigger] self.query_of(f)).len() > 0,
    {
        let r = is_valid_query_filter(self.genre_query.as_str())
            || is_valid_query_filter(self.title_query.as_str())
            || is_valid_query_filter(self.cast_query.as_str())
            || is_valid_query_filter(self.country_query.as_str())
            || is_valid_query_filter(self.language_query.as_str())
            || is_valid_query_filter(self.plot_query.as_str());
        proof {
            if !r {
                assert forall|f: QueryField| !(query_terms(#[trigger] self.query_of(f)).len() > 0) by {
                    match f {
                        QueryField::Genre => {},
                        QueryField::Title => {},
                        QueryField::Cast => {},
                        QueryField::Country => {},
                        QueryField::Language => {},
                        QueryField::Plot => {},
                    }
                }
            } else {
                if query_terms(self.genre_query@).len() > 0 {
                    assert(query_terms(self.query_of(QueryField::Genre)).len() > 0);
                } else if query_terms(self.title_query@).len() > 0 {
                    assert(query_terms(self.query_of(QueryField::Title)).len() > 0);
                } else if query_terms(self.cast_query@).len() > 0 {
                    assert(query_terms(self.query_of(QueryField::Cast)).len() > 0);
                } else if query_terms(self.country_query@).len() > 0 {
                    assert(query_terms(self.query_of(QueryField::Country)).len() > 0);
                } else if query_terms(self.language_query@).len() > 0 {
                    assert(query_terms(self.query_of(QueryField::Language)).len() > 0);
                } else {
                    assert(query_terms(self.query_of(QueryField::Plot)).len() > 0);
                }
            }
        }
        r
    }
}

} // verus!
