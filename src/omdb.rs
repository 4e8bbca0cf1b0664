use vstd::prelude::*;
use vstd::string::*;

use crate::record::JsonRow;
use crate::text::{
    all_digits, contains_text, digit_value, digits_value, is_digit, is_point_at, lemma_decimal_tenths_rounds,
    lemma_point_unique, pow10, decimal_tenths, parse_tenths, parse_u32, parse_u32_chars, same_text,
    strip_commas, text_contains, u32_of_text, without_commas,
};

verus! {

/// The rating service's word for a field it has no value for.
pub open spec fn not_available() -> Seq<char> {
    seq!['N', '/', 'A']
}

/// The largest rating, times ten.
pub const MAX_RATING: u32 = 100;

/// The string member `key` of the JSON object that `text` holds: `None` where
/// `text` is no JSON object, or has no member `key`, or that member is no
/// string.
pub uninterp spec fn json_string_member(text: Seq<char>, key: Seq<char>) -> Option<Seq<char>>;

pub open spec fn text_option(o: Option<String>) -> Option<Seq<char>> {
    match o {
        Some(s) => Some(s@),
        None => None,
    }
}

/// Relies on `serde_json::from_str` (into a `serde_json::Value`),
/// `Value::get` and `Value::as_str`: the string member `key` of the object
/// that `text` holds, if there is one.
#[verifier::external_body]
fn json_member(text: &str, key: &str) -> (r: Option<String>)
    ensures
        text_option(r) == json_string_member(text@, key@),
{
    let value: serde_json::Value = serde_json::from_str(text).ok()?;
    value.get(key)?.as_str().map(|s| s.to_string())
}

/// A successful answer of the rating service: every field as the service
/// wrote it.
#[derive(Debug, Clone)]
pub struct OmdbSuccessResponseJson {
    pub typ: String,
    pub runtime: String,
    pub plot: String,
    pub genre: String,
    pub language: String,
    pub writer: String,
    pub imdb_rating: String,
    pub imdb_votes: String,
    pub imdb_id: String,
}

/// An error answer of the rating service.
#[derive(Debug, Clone)]
pub struct OmdbErrorResponseJson {
    pub error: String,
}

/// `text` is a JSON object with all the string members of a successful
/// answer.
pub open spec fn has_success_shape(text: Seq<char>) -> bool {
    &&& json_string_member(text, "Type"@) is Some
    &&& json_string_member(text, "Runtime"@) is Some
    &&& json_string_member(text, "Plot"@) is Some
    &&& json_string_member(text, "Genre"@) is Some
    &&& json_string_member(text, "Language"@) is Some
    &&& json_string_member(text, "Writer"@) is Some
    &&& json_string_member(text, "imdbRating"@) is Some
    &&& json_string_member(text, "imdbVotes"@) is Some
    &&& json_string_member(text, "imdbID"@) is Some
}

impl OmdbSuccessResponseJson {
    /// Each field is the member of `text` of the service's name for it.
    pub open spec fn read_from(&self, text: Seq<char>) -> bool {
        &&& json_string_member(text, "Type"@) == Some(self.typ@)
        &&& json_string_member(text, "Runtime"@) == Some(self.runtime@)
        &&& json_string_member(text, "Plot"@) == Some(self.plot@)
        &&& json_string_member(text, "Genre"@) == Some(self.genre@)
        &&& json_string_member(text, "Language"@) == Some(self.language@)
        &&& json_string_member(text, "Writer"@) == Some(self.writer@)
        &&& json_string_member(text, "imdbRating"@) == Some(self.imdb_rating@)
        &&& json_string_member(text, "imdbVotes"@) == Some(self.imdb_votes@)
        &&& json_string_member(text, "imdbID"@) == Some(self.imdb_id@)
    }

    /// Reads a successful answer from the response text.
    pub fn from_json(text: &str) -> (r: Option<OmdbSuccessResponseJson>)
        ensures
            r is Some <==> has_success_shape(text@),
            r matches Some(json) ==> json.read_from(text@),
    {
        let typ = json_member(text, "Type");
        let runtime = json_member(text, "Runtime");
        let plot = json_member(text, "Plot");
        let genre = json_member(text, "Genre");
        let language = json_member(text, "Language");
        let writer = json_member(text, "Writer");
        let imdb_rating = json_member(text, "imdbRating");
        let imdb_votes = json_member(text, "imdbVotes");
        let imdb_id = json_member(text, "imdbID");
        match (typ, runtime, plot, genre, language, writer, imdb_rating, imdb_votes, imdb_id) {
            (
                Some(typ),
                Some(runtime),
                Some(plot),
                Some(genre),
                Some(language),
                Some(writer),
                Some(imdb_rating),
                Some(imdb_votes),
                Some(imdb_id),
            ) => Some(
                OmdbSuccessResponseJson {
                    typ,
                    runtime,
                    plot,
                    genre,
                    language,
                    writer,
                    imdb_rating,
                    imdb_votes,
                    imdb_id,
                },
            ),
            _ => None,
        }
    }
}

impl OmdbErrorResponseJson {
    /// Reads an error answer from the response text.
    pub fn from_json(text: &str) -> (r: Option<OmdbErrorResponseJson>)
        ensures
            text_option(
                match r {
                    Some(e) => Some(e.error),
                    None => None,
                },
            ) == json_string_member(text@, "Error"@),
    {
        match json_member(text, "Error") {
            Some(error) => Some(OmdbErrorResponseJson { error }),
            None => None,
        }
    }

    pub open spec fn spec_reached_rate_limit(&self) -> bool {
        text_contains(self.error@, "limit reached"@)
    }

    pub open spec fn spec_not_found(&self) -> bool {
        text_contains(self.error@, "not found"@)
    }

    /// The service reports that its request quota is used up.
    pub fn reached_rate_limit(&self) -> (r: bool)
        ensures
            r == self.spec_reached_rate_limit(),
    {
        contains_text(self.error.as_str(), "limit reached")
    }

    /// The service reports that it knows no such title.
    pub fn not_found(&self) -> (r: bool)
        ensures
            r == self.spec_not_found(),
    {
        contains_text(self.error.as_str(), "not found")
    }
}

/// A field of the service: absent where it says `N/A`.
pub open spec fn field_text(s: Seq<char>) -> Option<Seq<char>> {
    if s == not_available() {
        None
    } else {
        Some(s)
    }
}

/// The rating field, times ten and rounded: absent where it says `N/A`, is
/// no decimal number, or is above the largest rating.
pub open spec fn rating_of_text(s: Seq<char>) -> Option<u32> {
    if s == not_available() {
        None
    } else {
        match decimal_tenths(s) {
            Some(t) => if t <= MAX_RATING {
                Some(t as u32)
            } else {
                None
            },
            None => None,
        }
    }
}

/// The vote count field with its thousands separators dropped: absent where
/// it says `N/A` or is no unsigned number.
pub open spec fn votes_of_text(s: Seq<char>) -> Option<u32> {
    if s == not_available() {
        None
    } else {
        u32_of_text(without_commas(s))
    }
}

fn is_not_available(s: &str) -> (r: bool)
    ensures
        r == (s@ == not_available()),
{
    proof {
        reveal_strlit("N/A");
        assert("N/A"@ =~= not_available());
    }
    same_text(s, "N/A")
}

/// A field of the service as an optional value.
pub fn json_string(s: &str) -> (r: Option<String>)
    ensures
        text_option(r) == field_text(s@),
{
    if is_not_available(s) {
        None
    } else {
        Some(String::from_str(s))
    }
}

/// An unsigned number field of the service as an optional value.
pub fn maybe_uint(s: &str) -> (r: Option<u32>)
    ensures
        r == (if s@ == not_available() {
            None
        } else {
            u32_of_text(s@)
        }),
{
    if is_not_available(s) {
        None
    } else {
        parse_u32(s)
    }
}

/// The rating field as ten times the rating.
pub fn maybe_rating(s: &str) -> (r: Option<u32>)
    ensures
        r == rating_of_text(s@),
        r matches Some(t) ==> t <= MAX_RATING,
{
    if is_not_available(s) {
        None
    } else {
        parse_tenths(s, MAX_RATING)
    }
}

/// The vote count field, read without its thousands separators.
pub fn maybe_votes(s: &str) -> (r: Option<u32>)
    ensures
        r == votes_of_text(s@),
{
    if is_not_available(s) {
        None
    } else {
        let digits = strip_commas(s);
        parse_u32_chars(&digits)
    }
}

/// Where the rating field says `N/A`, no rating is read.
pub proof fn lemma_unavailable_rating_is_absent(s: Seq<char>)
    requires
        s == not_available(),
    ensures
        rating_of_text(s) is None,
{
}

/// Where the vote count field says `N/A`, no vote count is read.
pub proof fn lemma_unavailable_votes_are_absent(s: Seq<char>)
    requires
        s == not_available(),
    ensures
        votes_of_text(s) is None,
{
}

impl JsonRow {
    /// Each field is read from the matching field of the successful answer
    /// `json`.
    pub open spec fn read_from_success(&self, json: OmdbSuccessResponseJson) -> bool {
        &&& text_option(self.typ) == field_text(json.typ@)
        &&& text_option(self.duration) == field_text(json.runtime@)
        &&& text_option(self.plot) == field_text(json.plot@)
        &&& text_option(self.genre) == field_text(json.genre@)
        &&& text_option(self.language) == field_text(json.language@)
        &&& text_option(self.writer) == field_text(json.writer@)
        &&& self.imdb_rating == rating_of_text(json.imdb_rating@)
        &&& self.imdb_votes == votes_of_text(json.imdb_votes@)
        &&& text_option(self.imdb_id) == field_text(json.imdb_id@)
    }

    /// The fields of a successful answer, each read as an optional value.
    pub fn from_success(json: OmdbSuccessResponseJson) -> (r: JsonRow)
        ensures
            r.read_from_success(json),
    {
        JsonRow {
            typ: json_string(json.typ.as_str()),
            duration: json_string(json.runtime.as_str()),
            plot: json_string(json.plot.as_str()),
            genre: json_string(json.genre.as_str()),
            language: json_string(json.language.as_str()),
            writer: json_string(json.writer.as_str()),
            imdb_rating: maybe_rating(json.imdb_rating.as_str()),
            imdb_votes: maybe_votes(json.imdb_votes.as_str()),
            imdb_id: json_string(json.imdb_id.as_str()),
        }
    }
}

/// The kinds of outcome of one request to the rating service.
#[derive(Debug, Clone, Copy, PartialEq, Eq, Structural)]
pub enum ResponseKind {
    Success,
    RateLimitExceeded,
    MissingImdbData,
    NotFound,
    NoResponse,
    UnknownError,
}

/// The outcome of one request to the rating service.
#[derive(Debug, Clone)]
pub enum SyncImdbResult {
    /// The service knows the title, with a rating and an identifier.
    Success(JsonRow),
    /// The service's request quota is used up.
    RateLimitExceeded,
    /// The service knows the title but lacks its rating or identifier.
    MissingImdbData,
    /// The service knows no such title.
    NotFound,
    /// No response came back.
    NoResponse,
    /// Any other answer; holds the text to log for diagnosis.
    UnknownError(String),
}

impl SyncImdbResult {
    pub open spec fn spec_kind(&self) -> ResponseKind {
        match self {
            SyncImdbResult::Success(_) => ResponseKind::Success,
            SyncImdbResult::RateLimitExceeded => ResponseKind::RateLimitExceeded,
            SyncImdbResult::MissingImdbData => ResponseKind::MissingImdbData,
            SyncImdbResult::NotFound => ResponseKind::NotFound,
            SyncImdbResult::NoResponse => ResponseKind::NoResponse,
            SyncImdbResult::UnknownError(_) => ResponseKind::UnknownError,
        }
    }

    pub fn kind(&self) -> (r: ResponseKind)
        ensures
            r == self.spec_kind(),
    {
        match self {
            SyncImdbResult::Success(_) => ResponseKind::Success,
            SyncImdbResult::RateLimitExceeded => ResponseKind::RateLimitExceeded,
            SyncImdbResult::MissingImdbData => ResponseKind::MissingImdbData,
            SyncImdbResult::NotFound => ResponseKind::NotFound,
            SyncImdbResult::NoResponse => ResponseKind::NoResponse,
            SyncImdbResult::UnknownError(_) => ResponseKind::UnknownError,
        }
    }
}

/// A successful answer is usable where it has a rating and an identifier.
pub open spec fn success_is_usable(json: OmdbSuccessResponseJson) -> bool {
    rating_of_text(json.imdb_rating@) is Some && field_text(json.imdb_id@) is Some
}

/// How an answer is classified: a successful answer first, then an error
/// answer by its message, and anything else is an unknown error.
pub open spec fn classified_kind(
    success: Option<OmdbSuccessResponseJson>,
    error: Option<OmdbErrorResponseJson>,
) -> ResponseKind {
    match success {
        Some(json) => if success_is_usable(json) {
            ResponseKind::Success
        } else {
            ResponseKind::MissingImdbData
        },
        None => match error {
            Some(e) => if e.spec_reached_rate_limit() {
                ResponseKind::RateLimitExceeded
            } else if e.spec_not_found() {
                ResponseKind::NotFound
            } else {
                ResponseKind::UnknownError
            },
            None => ResponseKind::UnknownError,
        },
    }
}

/// What an unknown error gives to log: the service's message where there is
/// one, else the whole response.
pub open spec fn diagnostic_text(error: Option<OmdbErrorResponseJson>, body: Seq<char>) -> Seq<
    char,
> {
    match error {
        Some(e) => e.error@,
        None => body,
    }
}

/// Classifies an answer of the service, given what could be read from it as
/// a successful answer and as an error answer, and its text `body`.
pub fn classify(
    success: Option<OmdbSuccessResponseJson>,
    error: Option<OmdbErrorResponseJson>,
    body: &str,
) -> (r: SyncImdbResult)
    ensures
        r.spec_kind() == classified_kind(success, error),
        r matches SyncImdbResult::Success(row) ==> row.read_from_success(success.unwrap()),
        r matches SyncImdbResult::UnknownError(msg) ==> msg@ == diagnostic_text(error, body@),
{
    match success {
        Some(json) => {
            let row = JsonRow::from_success(json);
            if row.is_missing_imdb_data() {
                SyncImdbResult::MissingImdbData
            } else {
                SyncImdbResult::Success(row)
            }
        },
        None => match error {
            Some(e) => {
                if e.reached_rate_limit() {
                    SyncImdbResult::RateLimitExceeded
                } else if e.not_found() {
                    SyncImdbResult::NotFound
                } else {
                    SyncImdbResult::UnknownError(e.error)
                }
            },
            None => SyncImdbResult::UnknownError(String::from_str(body)),
        },
    }
}

/// The member `key` of the response text, as the service wrote it.
pub open spec fn member(text: Seq<char>, key: Seq<char>) -> Seq<char> {
    json_string_member(text, key).unwrap()
}

/// How the response `text` is classified.
pub open spec fn response_kind(text: Seq<char>) -> ResponseKind {
    if has_success_shape(text) {
        if rating_of_text(member(text, "imdbRating"@)) is Some && field_text(
            member(text, "imdbID"@),
        ) is Some {
            ResponseKind::Success
        } else {
            ResponseKind::MissingImdbData
        }
    } else {
        match json_string_member(text, "Error"@) {
            Some(msg) => if text_contains(msg, "limit reached"@) {
                ResponseKind::RateLimitExceeded
            } else if text_contains(msg, "not found"@) {
                ResponseKind::NotFound
            } else {
                ResponseKind::UnknownError
            },
            None => ResponseKind::UnknownError,
        }
    }
}

impl JsonRow {
    /// Each field is read from the matching member of the response `text`.
    pub open spec fn read_from_text(&self, text: Seq<char>) -> bool {
        &&& text_option(self.typ) == field_text(member(text, "Type"@))
        &&& text_option(self.duration) == field_text(member(text, "Runtime"@))
        &&& text_option(self.plot) == field_text(member(text, "Plot"@))
        &&& text_option(self.genre) == field_text(member(text, "Genre"@))
        &&& text_option(self.language) == field_text(member(text, "Language"@))
        &&& text_option(self.writer) == field_text(member(text, "Writer"@))
        &&& self.imdb_rating == rating_of_text(member(text, "imdbRating"@))
        &&& self.imdb_votes == votes_of_text(member(text, "imdbVotes"@))
        &&& text_option(self.imdb_id) == field_text(member(text, "imdbID"@))
    }
}

/// Classifies the text of a response of the rating service.
pub fn classify_response(text: &str) -> (r: SyncImdbResult)
    ensures
        r.spec_kind() == response_kind(text@),
        r matches SyncImdbResult::Success(row) ==> row.read_from_text(text@),
        r matches SyncImdbResult::UnknownError(msg) ==> msg@ == match json_string_member(
            text@,
            "Error"@,
        ) {
            Some(m) => m,
            None => text@,
        },
{
    let success = OmdbSuccessResponseJson::from_json(text);
    match success {
        Some(json) => classify(Some(json), None, text),
        None => {
            let error = OmdbErrorResponseJson::from_json(text);
            classify(None, error, text)
        },
    }
}

/// The outcome of one request, given the response text, or `None` where no
/// response came back.
pub fn sync_outcome(response: Option<&str>) -> (r: SyncImdbResult)
    ensures
        response is None ==> r is NoResponse,
        response matches Some(text) ==> r.spec_kind() == response_kind(text@),
        response matches Some(text) ==> (r matches SyncImdbResult::Success(row)
            ==> row.read_from_text(text@)),
        response matches Some(text) ==> (r matches SyncImdbResult::UnknownError(msg) ==> msg@
            == match json_string_member(text@, "Error"@) {
            Some(m) => m,
            None => text@,
        }),
{
    match response {
        Some(text) => classify_response(text),
        None => SyncImdbResult::NoResponse,
    }
}

pub open spec fn is_ascii_alphanumeric_byte(b: u8) -> bool {
    (0x30 <= b <= 0x39) || (0x41 <= b <= 0x5A) || (0x61 <= b <= 0x7A)
}

/// The upper-case hexadecimal digit for `v < 16`.
pub open spec fn hex_digit(v: u8) -> char {
    if v < 10 {
        (0x30 + v) as u8 as char
    } else {
        (0x37 + v) as u8 as char
    }
}

/// How one byte is written in a query parameter: an ASCII letter or digit as
/// it is, any other byte as `%` and two upper-case hexadecimal digits.
pub open spec fn encoded_byte(b: u8) -> Seq<char> {
    if is_ascii_alphanumeric_byte(b) {
        seq![b as char]
    } else {
        seq!['%', hex_digit(b / 16), hex_digit(b % 16)]
    }
}

/// The bytes `bs`, each written as `encoded_byte` gives.
pub open spec fn percent_encoded(bs: Seq<u8>) -> Seq<char>
    decreases bs.len(),
{
    if bs.len() == 0 {
        Seq::empty()
    } else {
        percent_encoded(bs.drop_last()) + encoded_byte(bs.last())
    }
}

/// Relies on `percent_encoding::utf8_percent_encode` with `NON_ALPHANUMERIC`
/// (written out through its `Display`): each byte of the UTF-8 form of `s`
/// that is not an ASCII letter or digit becomes `%XX`, upper case.
#[verifier::external_body]
fn percent_encode(s: &str) -> (r: String)
    ensures
        r@ == percent_encoded(s.spec_bytes()),
{
    percent_encoding::utf8_percent_encode(s, percent_encoding::NON_ALPHANUMERIC).to_string()
}

pub open spec fn request_uri_of(api_key: Seq<char>, title_bytes: Seq<u8>) -> Seq<char> {
    "http://www.omdbapi.com/?apikey="@ + api_key + "&t="@ + percent_encoded(title_bytes)
}

/// The address of the rating service's lookup of `title`, with the title
/// percent-encoded and the API key as query parameters.
pub fn request_uri(api_key: &str, title: &str) -> (r: String)
    ensures
        r@ == request_uri_of(api_key@, title.spec_bytes()),
{
    let mut uri = String::from_str("http://www.omdbapi.com/?apikey=");
    uri.append(api_key);
    uri.append("&t=");
    let encoded = percent_encode(title);
    uri.append(encoded.as_str());
    uri
}

/// A rating written with one decimal, `w.d`, between `0.0` and `10.0` is
/// read as exactly ten times its value, `10 * w + d`, which lies in
/// `0..=100`.
pub proof fn lemma_one_decimal_rating(w: Seq<char>, d: char)
    requires
        w.len() > 0,
        all_digits(w),
        is_digit(d),
        digits_value(w) * 10 + digit_value(d) <= MAX_RATING,
    ensures
        rating_of_text(w + seq!['.', d]) == Some((digits_value(w) * 10 + digit_value(d)) as u32),
        rating_of_text(w + seq!['.', d])->0 <= MAX_RATING,
{
    let s = w + seq!['.', d];
    let k = w.len() as int;
    assert(s[k] == '.');
    assert(!all_digits(s)) by {
        assert(!is_digit(s[k]));
    }
    assert(s.subrange(0, k) =~= w);
    assert(s.subrange(k + 1, s.len() as int) =~= seq![d]);
    assert(all_digits(seq![d])) by {
        assert forall|i: int| 0 <= i < 1 implies #[trigger] is_digit(seq![d][i]) by {}
    }
    assert(is_point_at(s, k));
    let c = choose|j: int| is_point_at(s, j);
    lemma_point_unique(s, k, c);
    assert(s != not_available()) by {
        assert(is_digit(w[0]));
        assert(s[0] == w[0]);
    }
}

/// A rating written as a decimal number `w.f` is read as ten times its
/// value rounded to the nearest integer, a half rounding up, where that lies
/// in `0..=100`, and as no rating above that.
pub proof fn lemma_rating_rounds(w: Seq<char>, f: Seq<char>)
    requires
        w.len() > 0,
        f.len() > 0,
        all_digits(w),
        all_digits(f),
    ensures
        decimal_tenths(w + seq!['.'] + f) is Some,
        ({
            let t = decimal_tenths(w + seq!['.'] + f)->0;
            let m = pow10(f.len());
            &&& 2 * t * m <= 20 * digits_value(w + f) + m < 2 * (t + 1) * m
            &&& rating_of_text(w + seq!['.'] + f) == if t <= MAX_RATING {
                Some(t as u32)
            } else {
                None
            }
        }),
{
    let s = w + seq!['.'] + f;
    lemma_decimal_tenths_rounds(w, f);
    let t = decimal_tenths(s)->0;
    assert(s != not_available()) by {
        assert(is_digit(w[0]));
        assert(s[0] == w[0]);
    }
    let m = pow10(f.len());
    let n = digits_value(w + f);
    assert(2 * t * m <= 20 * n + m < 2 * (t + 1) * m);
}

} // verus!
