//! Generators: rules that replace example values in a pact with generated ones.

use vstd::prelude::*;
use crate::expressions::{context_value, context_json, json_value_from_context};
pub use crate::expressions::generate_value_from_context;
use crate::datetime::{chrono_format, chrono_safe, format_safe, date_pattern, to_chrono_format};
use crate::text::{push_char, push_str, push_decimal, str_eq, decimal, chars_of, string_of};
use crate::json::{JsonValue, Json, json_text, serde_json_text, entry_views, lemma_entry_views, json_number_i64,
    json_number_u64, number_as_i64, number_as_u64};
use crate::actions::{first_entry, find_entry, json_param_text};
use crate::outside::{to_lower, unicode_lower, random_choice, random_index, random_int, random_bool, random_pick,
    random_alphanumeric, uuid_v4_hyphenated, uuid_v4_simple, regex_sample, regex_parse_error, regex_sampler_error,
    local_now, local_today, regex_first_captures, regex_first_match, uuid_hyphenated_shape, is_upper_hex_digit, is_lower_hex_digit,
    is_ascii_alphanumeric, random_u16, parse_u16, u16_from_text, debug_str, debug_string};

verus! {

/// The type of a value that a provider state generator makes.
#[derive(Debug, Clone, Copy, PartialEq, Eq, Structural, Hash)]
#[allow(non_camel_case_types)]
pub enum DataType {
    /// A string
    STRING,
    /// An integer
    INTEGER,
    /// A decimal number
    DECIMAL,
    /// A floating point number
    FLOAT,
    /// The value as it is
    RAW,
    /// A boolean
    BOOLEAN,
}

/// The name of a data type, as it is written in JSON.
pub open spec fn data_type_name(d: DataType) -> Seq<char> {
    match d {
        DataType::STRING => "STRING"@,
        DataType::INTEGER => "INTEGER"@,
        DataType::DECIMAL => "DECIMAL"@,
        DataType::FLOAT => "FLOAT"@,
        DataType::RAW => "RAW"@,
        DataType::BOOLEAN => "BOOLEAN"@,
    }
}

/// The data type a JSON value names: one of the names, else `RAW`.
pub open spec fn data_type_of(j: Json) -> DataType {
    match j {
        Json::Str(s) => if s == "STRING"@ {
            DataType::STRING
        } else if s == "INTEGER"@ {
            DataType::INTEGER
        } else if s == "DECIMAL"@ {
            DataType::DECIMAL
        } else if s == "FLOAT"@ {
            DataType::FLOAT
        } else if s == "BOOLEAN"@ {
            DataType::BOOLEAN
        } else {
            DataType::RAW
        },
        _ => DataType::RAW,
    }
}

impl DataType {
    /// The name of the data type, as it is written in JSON.
    pub fn name(&self) -> (r: &'static str)
        ensures
            r@ == data_type_name(*self),
    {
        proof {
            reveal_strlit("STRING");
            reveal_strlit("INTEGER");
            reveal_strlit("DECIMAL");
            reveal_strlit("FLOAT");
            reveal_strlit("RAW");
            reveal_strlit("BOOLEAN");
        }
        match self {
            DataType::STRING => "STRING",
            DataType::INTEGER => "INTEGER",
            DataType::DECIMAL => "DECIMAL",
            DataType::FLOAT => "FLOAT",
            DataType::RAW => "RAW",
            DataType::BOOLEAN => "BOOLEAN",
        }
    }

    /// The data type a JSON value names; see [`data_type_of`].
    pub fn from_json(j: &JsonValue) -> (r: DataType)
        ensures
            r == data_type_of(j@),
    {
        proof {
            reveal_strlit("STRING");
            reveal_strlit("INTEGER");
            reveal_strlit("DECIMAL");
            reveal_strlit("FLOAT");
            reveal_strlit("BOOLEAN");
        }
        match j {
            JsonValue::Str(s) => {
                let s = s.as_str();
                if str_eq(s, "STRING") {
                    DataType::STRING
                } else if str_eq(s, "INTEGER") {
                    DataType::INTEGER
                } else if str_eq(s, "DECIMAL") {
                    DataType::DECIMAL
                } else if str_eq(s, "FLOAT") {
                    DataType::FLOAT
                } else if str_eq(s, "BOOLEAN") {
                    DataType::BOOLEAN
                } else {
                    DataType::RAW
                }
            },
            _ => DataType::RAW,
        }
    }
}

/// A generator of values.
#[derive(Debug, PartialEq, Eq, Hash)]
pub enum Generator {
    /// Generates a random integer between the min and max values
    RandomInt(i32, i32),
    /// Generates a random UUID value
    Uuid,
    /// Generates a random sequence of digits
    RandomDecimal(u16),
    /// Generates a random sequence of hexadecimal digits
    RandomHexadecimal(u16),
    /// Generates a random string of the provided size
    RandomString(u16),
    /// Generates a random string that matches the provided regex
    Regex(String),
    /// Generates a random date that matches either the provided format or the ISO format
    Date(Option<String>),
    /// Generates a random time that matches either the provided format or the ISO format
    Time(Option<String>),
    /// Generates a random timestamp that matches either the provided format or the ISO format
    DateTime(Option<String>),
    /// Generates a random boolean value
    RandomBoolean,
    /// Generates a value that is looked up from the provider state context
    ProviderStateGenerator(String, Option<DataType>),
    /// Generates a URL with the mock server as the base URL
    MockServerURL(String, String),
}

/// The model of a generator.
pub enum Gen {
    RandomInt(i32, i32),
    Uuid,
    RandomDecimal(u16),
    RandomHexadecimal(u16),
    RandomString(u16),
    Regex(Seq<char>),
    Date(Option<Seq<char>>),
    Time(Option<Seq<char>>),
    DateTime(Option<Seq<char>>),
    RandomBoolean,
    ProviderStateGenerator(Seq<char>, Option<DataType>),
    MockServerURL(Seq<char>, Seq<char>),
}

/// The model of an optional string.
pub open spec fn opt_str(s: Option<String>) -> Option<Seq<char>> {
    match s {
        Some(x) => Some(x@),
        None => None,
    }
}

impl View for Generator {
    type V = Gen;

    open spec fn view(&self) -> Gen {
        match *self {
            Generator::RandomInt(a, b) => Gen::RandomInt(a, b),
            Generator::Uuid => Gen::Uuid,
            Generator::RandomDecimal(d) => Gen::RandomDecimal(d),
            Generator::RandomHexadecimal(d) => Gen::RandomHexadecimal(d),
            Generator::RandomString(n) => Gen::RandomString(n),
            Generator::Regex(r) => Gen::Regex(r@),
            Generator::Date(f) => Gen::Date(opt_str(f)),
            Generator::Time(f) => Gen::Time(opt_str(f)),
            Generator::DateTime(f) => Gen::DateTime(opt_str(f)),
            Generator::RandomBoolean => Gen::RandomBoolean,
            Generator::ProviderStateGenerator(e, d) => Gen::ProviderStateGenerator(e@, d),
            Generator::MockServerURL(e, r) => Gen::MockServerURL(e@, r@),
        }
    }
}

/// If the generators are being applied in the context of a consumer or provider.
#[derive(Debug, Clone, Copy, PartialEq, Eq, Structural)]
pub enum GeneratorTestMode {
    /// Generate values in the context of the consumer
    Consumer,
    /// Generate values in the context of the provider
    Provider,
}

/// Category that a generator is applied to.
#[derive(Debug, Clone, Copy, PartialEq, Eq, Structural, Hash)]
#[allow(non_camel_case_types)]
pub enum GeneratorCategory {
    /// Request Method
    METHOD,
    /// Request Path
    PATH,
    /// Request/Response Header
    HEADER,
    /// Request Query Parameter
    QUERY,
    /// Body
    BODY,
    /// Response Status
    STATUS,
}

/// The name of a category.
pub open spec fn category_name(c: GeneratorCategory) -> Seq<char> {
    match c {
        GeneratorCategory::METHOD => "method"@,
        GeneratorCategory::PATH => "path"@,
        GeneratorCategory::HEADER => "header"@,
        GeneratorCategory::QUERY => "query"@,
        GeneratorCategory::BODY => "body"@,
        GeneratorCategory::STATUS => "status"@,
    }
}

/// The category a name gives, in any case, or the error message.
pub open spec fn category_from_name(s: Seq<char>) -> Result<GeneratorCategory, Seq<char>> {
    let l = unicode_lower(s);
    if l == "method"@ {
        Ok(GeneratorCategory::METHOD)
    } else if l == "path"@ {
        Ok(GeneratorCategory::PATH)
    } else if l == "header"@ {
        Ok(GeneratorCategory::HEADER)
    } else if l == "query"@ {
        Ok(GeneratorCategory::QUERY)
    } else if l == "body"@ {
        Ok(GeneratorCategory::BODY)
    } else if l == "status"@ {
        Ok(GeneratorCategory::STATUS)
    } else {
        Err(seq!['\''] + s + "' is not a valid GeneratorCategory"@)
    }
}

/// Whether a category holds a single generator (under the empty key) rather than one per
/// name.
pub open spec fn single_category(c: GeneratorCategory) -> bool {
    c == GeneratorCategory::PATH || c == GeneratorCategory::METHOD || c == GeneratorCategory::STATUS
}

impl GeneratorCategory {
    /// The category a name gives, in any case; see [`category_from_name`].
    pub fn from_str(s: &str) -> (r: Result<GeneratorCategory, String>)
        ensures
            match (r, category_from_name(s@)) {
                (Ok(a), Ok(b)) => a == b,
                (Err(a), Err(b)) => a@ == b,
                _ => false,
            },
    {
        proof {
            reveal_strlit("method");
            reveal_strlit("path");
            reveal_strlit("header");
            reveal_strlit("query");
            reveal_strlit("body");
            reveal_strlit("status");
            reveal_strlit("' is not a valid GeneratorCategory");
        }
        let l = to_lower(s);
        let l = l.as_str();
        if str_eq(l, "method") {
            Ok(GeneratorCategory::METHOD)
        } else if str_eq(l, "path") {
            Ok(GeneratorCategory::PATH)
        } else if str_eq(l, "header") {
            Ok(GeneratorCategory::HEADER)
        } else if str_eq(l, "query") {
            Ok(GeneratorCategory::QUERY)
        } else if str_eq(l, "body") {
            Ok(GeneratorCategory::BODY)
        } else if str_eq(l, "status") {
            Ok(GeneratorCategory::STATUS)
        } else {
            let mut m = String::new();
            push_char(&mut m, '\'');
            push_str(&mut m, s);
            push_str(&mut m, "' is not a valid GeneratorCategory");
            assert(m@ =~= seq!['\''] + s@ + "' is not a valid GeneratorCategory"@);
            Err(m)
        }
    }

    /// The name of the category.
    pub fn name(&self) -> (r: &'static str)
        ensures
            r@ == category_name(*self),
    {
        proof {
            reveal_strlit("method");
            reveal_strlit("path");
            reveal_strlit("header");
            reveal_strlit("query");
            reveal_strlit("body");
            reveal_strlit("status");
        }
        match self {
            GeneratorCategory::METHOD => "method",
            GeneratorCategory::PATH => "path",
            GeneratorCategory::HEADER => "header",
            GeneratorCategory::QUERY => "query",
            GeneratorCategory::BODY => "body",
            GeneratorCategory::STATUS => "status",
        }
    }
}

/// Whether a generator may be used in a mode: provider state generators only for the
/// provider, mock server URLs only for the consumer.
pub open spec fn gen_corresponds_to_mode(g: Gen, mode: GeneratorTestMode) -> bool {
    match g {
        Gen::ProviderStateGenerator(_, _) => mode == GeneratorTestMode::Provider,
        Gen::MockServerURL(_, _) => mode == GeneratorTestMode::Consumer,
        _ => true,
    }
}

/// The decimal text of a signed integer.
pub open spec fn int_text(v: int) -> Seq<char> {
    if v < 0 { seq!['-'] + decimal((-v) as nat) } else { decimal(v as nat) }
}

/// `{"type": name}` with more entries, keys in order.
pub open spec fn typed(name: Seq<char>, before: Seq<(Seq<char>, Json)>, after: Seq<(Seq<char>, Json)>) -> Json {
    Json::Object(before + seq![("type"@, Json::Str(name))] + after)
}

/// The JSON form of a generator, with its keys in order.
pub open spec fn gen_json(g: Gen) -> Json {
    let none = Seq::<(Seq<char>, Json)>::empty();
    match g {
        Gen::RandomInt(min, max) => typed("RandomInt"@, seq![("max"@, Json::Number(int_text(max as int))), ("min"@, Json::Number(int_text(min as int)))], none),
        Gen::Uuid => typed("Uuid"@, none, none),
        Gen::RandomDecimal(d) => typed("RandomDecimal"@, seq![("digits"@, Json::Number(decimal(d as nat)))], none),
        Gen::RandomHexadecimal(d) => typed("RandomHexadecimal"@, seq![("digits"@, Json::Number(decimal(d as nat)))], none),
        Gen::RandomString(n) => typed("RandomString"@, none, seq![("size"@, Json::Number(decimal(n as nat)))]),
        Gen::Regex(r) => typed("Regex"@, seq![("regex"@, Json::Str(r))], none),
        Gen::Date(f) => typed("Date"@, match f { Some(x) => seq![("format"@, Json::Str(x))], None => none }, none),
        Gen::Time(f) => typed("Time"@, match f { Some(x) => seq![("format"@, Json::Str(x))], None => none }, none),
        Gen::DateTime(f) => typed("DateTime"@, match f { Some(x) => seq![("format"@, Json::Str(x))], None => none }, none),
        Gen::RandomBoolean => typed("RandomBoolean"@, none, none),
        Gen::ProviderStateGenerator(e, d) => typed("ProviderState"@, match d {
            Some(t) => seq![("dataType"@, Json::Str(data_type_name(t))), ("expression"@, Json::Str(e))],
            None => seq![("expression"@, Json::Str(e))],
        }, none),
        Gen::MockServerURL(ex, re) => typed("MockServerURL"@, seq![("example"@, Json::Str(ex)), ("regex"@, Json::Str(re))], none),
    }
}

/// The value of the first entry with the given key.
pub open spec fn first_of<K, V>(s: Seq<(K, V)>, k: K) -> Option<V>
    decreases s.len(),
{
    if s.len() == 0 {
        None
    } else if s[0].0 == k {
        Some(s[0].1)
    } else {
        first_of(s.drop_first(), k)
    }
}

/// Replacing the first entry with a key changes what that key finds, and nothing else.
pub proof fn lemma_first_of_update<K, V>(s: Seq<(K, V)>, i: int, x: (K, V), k: K)
    requires
        0 <= i < s.len(),
        s[i].0 == x.0,
        forall|j: int| 0 <= j < i ==> s[j].0 != x.0,
    ensures
        first_of(s.update(i, x), k) == if k == x.0 { Some(x.1) } else { first_of(s, k) },
    decreases i,
{
    let u = s.update(i, x);
    if i > 0 {
        assert(u.drop_first() =~= s.drop_first().update(i - 1, x));
        assert forall|j: int| 0 <= j < i - 1 implies s.drop_first()[j].0 != x.0 by {
            assert(s.drop_first()[j] == s[j + 1]);
        }
        lemma_first_of_update(s.drop_first(), i - 1, x, k);
        assert(u[0] == s[0]);
    } else {
        assert(u.drop_first() =~= s.drop_first());
        assert(u[0] == x);
    }
}

/// Adding an entry with a new key makes that key find it, and changes nothing else.
pub proof fn lemma_first_of_push<K, V>(s: Seq<(K, V)>, x: (K, V), k: K)
    requires
        forall|j: int| 0 <= j < s.len() ==> s[j].0 != x.0,
    ensures
        first_of(s.push(x), k) == if k == x.0 { Some(x.1) } else { first_of(s, k) },
    decreases s.len(),
{
    let p = s.push(x);
    if s.len() > 0 {
        assert(p.drop_first() =~= s.drop_first().push(x));
        assert forall|j: int| 0 <= j < s.drop_first().len() implies s.drop_first()[j].0 != x.0 by {
            assert(s.drop_first()[j] == s[j + 1]);
        }
        lemma_first_of_push(s.drop_first(), x, k);
        assert(p[0] == s[0]);
        assert(s[0].0 != x.0);
    } else {
        assert(p.drop_first() =~= Seq::<(K, V)>::empty());
        assert(first_of(p.drop_first(), k) is None);
        assert(p[0] == x);
    }
}

/// No entry has the key when the first lookup finds none.
pub proof fn lemma_first_of_none<K, V>(s: Seq<(K, V)>, k: K)
    ensures
        first_of(s, k) is None <==> forall|j: int| 0 <= j < s.len() ==> s[j].0 != k,
    decreases s.len(),
{
    if s.len() > 0 {
        lemma_first_of_none(s.drop_first(), k);
        if first_of(s, k) is None {
            assert forall|j: int| 0 <= j < s.len() implies s[j].0 != k by {
                if j > 0 {
                    assert(s[j] == s.drop_first()[j - 1]);
                }
            }
        } else if s[0].0 != k {
            let j = choose|j: int| 0 <= j < s.drop_first().len() && s.drop_first()[j].0 == k;
            assert(s[j + 1] == s.drop_first()[j]);
        }
    }
}

/// The generators of one category, each with its key, and the categories in order.
pub type GenEntries = Seq<(Seq<char>, Gen)>;

/// The generator stored for a key in a category, if any.
pub open spec fn gen_lookup(cats: Seq<(GeneratorCategory, GenEntries)>, c: GeneratorCategory, k: Seq<char>) -> Option<Gen> {
    match first_of(cats, c) {
        Some(entries) => first_of(entries, k),
        None => None,
    }
}

/// Whether no category holds a generator.
pub open spec fn gens_empty(cats: Seq<(GeneratorCategory, GenEntries)>) -> bool {
    forall|i: int| 0 <= i < cats.len() ==> (#[trigger] cats[i]).1.len() == 0
}

/// A collection of generators, by category and then by key.
#[derive(Debug)]
pub struct Generators {
    /// The categories, each with its generators by key
    pub categories: Vec<(GeneratorCategory, Vec<(String, Generator)>)>,
}

/// The model of the generators of one category.
pub open spec fn gen_entries_view(v: Seq<(String, Generator)>) -> GenEntries {
    v.map_values(|e: (String, Generator)| (e.0@, e.1@))
}

impl View for Generators {
    type V = Seq<(GeneratorCategory, GenEntries)>;

    open spec fn view(&self) -> Seq<(GeneratorCategory, GenEntries)> {
        self.categories@.map_values(|c: (GeneratorCategory, Vec<(String, Generator)>)| (c.0, gen_entries_view(c.1@)))
    }
}

impl Generator {
    /// A copy of this generator.
    pub fn copy(&self) -> (r: Generator)
        ensures
            r@ == self@,
    {
        match self {
            Generator::RandomInt(a, b) => Generator::RandomInt(*a, *b),
            Generator::Uuid => Generator::Uuid,
            Generator::RandomDecimal(d) => Generator::RandomDecimal(*d),
            Generator::RandomHexadecimal(d) => Generator::RandomHexadecimal(*d),
            Generator::RandomString(n) => Generator::RandomString(*n),
            Generator::Regex(r) => Generator::Regex(r.clone()),
            Generator::Date(f) => Generator::Date(copy_opt(f)),
            Generator::Time(f) => Generator::Time(copy_opt(f)),
            Generator::DateTime(f) => Generator::DateTime(copy_opt(f)),
            Generator::RandomBoolean => Generator::RandomBoolean,
            Generator::ProviderStateGenerator(e, d) => Generator::ProviderStateGenerator(e.clone(), *d),
            Generator::MockServerURL(e, r) => Generator::MockServerURL(e.clone(), r.clone()),
        }
    }

    /// If this generator is compatible with the given generator mode.
    pub fn corresponds_to_mode(&self, mode: &GeneratorTestMode) -> (r: bool)
        ensures
            r == gen_corresponds_to_mode(self@, *mode),
    {
        match self {
            Generator::ProviderStateGenerator(_, _) => *mode == GeneratorTestMode::Provider,
            Generator::MockServerURL(_, _) => *mode == GeneratorTestMode::Consumer,
            _ => true,
        }
    }

    /// Convert this generator to its JSON form.
    pub fn to_json(&self) -> (r: Option<JsonValue>)
        ensures
            r matches Some(j) && j@ == gen_json(self@),
    {
        proof {
            reveal_strlit("RandomInt");
            reveal_strlit("Uuid");
            reveal_strlit("RandomDecimal");
            reveal_strlit("RandomHexadecimal");
            reveal_strlit("RandomString");
            reveal_strlit("Regex");
            reveal_strlit("Date");
            reveal_strlit("Time");
            reveal_strlit("DateTime");
            reveal_strlit("RandomBoolean");
            reveal_strlit("ProviderState");
            reveal_strlit("MockServerURL");
            reveal_strlit("max");
            reveal_strlit("min");
            reveal_strlit("digits");
            reveal_strlit("size");
            reveal_strlit("regex");
            reveal_strlit("format");
            reveal_strlit("dataType");
            reveal_strlit("expression");
            reveal_strlit("example");
        }
        let mut e: Vec<(String, JsonValue)> = Vec::new();
        match self {
            Generator::RandomInt(min, max) => {
                e.push((String::from_str("max"), JsonValue::Number(int_string(*max))));
                e.push((String::from_str("min"), JsonValue::Number(int_string(*min))));
                e.push(type_entry("RandomInt"));
            },
            Generator::Uuid => e.push(type_entry("Uuid")),
            Generator::RandomDecimal(d) => {
                e.push((String::from_str("digits"), JsonValue::Number(crate::text::u64_to_string(*d as u64))));
                e.push(type_entry("RandomDecimal"));
            },
            Generator::RandomHexadecimal(d) => {
                e.push((String::from_str("digits"), JsonValue::Number(crate::text::u64_to_string(*d as u64))));
                e.push(type_entry("RandomHexadecimal"));
            },
            Generator::RandomString(n) => {
                e.push(type_entry("RandomString"));
                e.push((String::from_str("size"), JsonValue::Number(crate::text::u64_to_string(*n as u64))));
            },
            Generator::Regex(r) => {
                e.push((String::from_str("regex"), JsonValue::Str(r.clone())));
                e.push(type_entry("Regex"));
            },
            Generator::Date(f) => {
                if let Some(x) = f {
                    e.push((String::from_str("format"), JsonValue::Str(x.clone())));
                }
                e.push(type_entry("Date"));
            },
            Generator::Time(f) => {
                if let Some(x) = f {
                    e.push((String::from_str("format"), JsonValue::Str(x.clone())));
                }
                e.push(type_entry("Time"));
            },
            Generator::DateTime(f) => {
                if let Some(x) = f {
                    e.push((String::from_str("format"), JsonValue::Str(x.clone())));
                }
                e.push(type_entry("DateTime"));
            },
            Generator::RandomBoolean => e.push(type_entry("RandomBoolean")),
            Generator::ProviderStateGenerator(ex, d) => {
                if let Some(t) = d {
                    e.push((String::from_str("dataType"), JsonValue::Str(String::from_str(t.name()))));
                }
                e.push((String::from_str("expression"), JsonValue::Str(ex.clone())));
                e.push(type_entry("ProviderState"));
            },
            Generator::MockServerURL(ex, re) => {
                e.push((String::from_str("example"), JsonValue::Str(ex.clone())));
                e.push((String::from_str("regex"), JsonValue::Str(re.clone())));
                e.push(type_entry("MockServerURL"));
            },
        }
        proof { lemma_entry_views(e@); }
        let j = JsonValue::Object(e);
        assert(entry_views(e@) =~= gen_json(self@)->Object_0);
        Some(j)
    }
}

/// `("type", name)`.
fn type_entry(name: &str) -> (r: (String, JsonValue))
    ensures
        r.0@ == "type"@,
        r.1@ == Json::Str(name@),
{
    proof { reveal_strlit("type"); }
    (String::from_str("type"), JsonValue::Str(name.to_string()))
}

/// A copy of an optional string.
fn copy_opt(s: &Option<String>) -> (r: Option<String>)
    ensures
        opt_str(r) == opt_str(*s),
{
    match s {
        Some(x) => Some(x.clone()),
        None => None,
    }
}

/// The decimal text of a signed integer; see [`int_text`].
pub fn int_string(v: i32) -> (r: String)
    ensures
        r@ == int_text(v as int),
{
    let mut s = String::new();
    if v < 0 {
        push_char(&mut s, '-');
        let m: i64 = -(v as i64);
        push_decimal(&mut s, m as u64);
    } else {
        push_decimal(&mut s, v as u64);
    }
    assert(s@ =~= int_text(v as int));
    s
}

/// The position of the first entry with the given key.
pub open spec fn first_index<K, V>(s: Seq<(K, V)>, k: K) -> Option<int>
    decreases s.len(),
{
    if s.len() == 0 {
        None
    } else if s[0].0 == k {
        Some(0)
    } else {
        match first_index(s.drop_first(), k) {
            Some(i) => Some(i + 1),
            None => None,
        }
    }
}

/// The first entry with a key is at the first position where it occurs.
pub proof fn lemma_first_index<K, V>(s: Seq<(K, V)>, k: K, i: int)
    requires
        0 <= i <= s.len(),
        forall|j: int| 0 <= j < i ==> s[j].0 != k,
        i < s.len() ==> s[i].0 == k,
    ensures
        first_index(s, k) == if i < s.len() { Some(i) } else { None::<int> },
    decreases i,
{
    if i > 0 {
        assert forall|j: int| 0 <= j < i - 1 implies s.drop_first()[j].0 != k by {
            assert(s.drop_first()[j] == s[j + 1]);
        }
        if i < s.len() {
            assert(s.drop_first()[i - 1] == s[i]);
        }
        lemma_first_index(s.drop_first(), k, i - 1);
    }
}

/// The entries with the value of a key set: the first entry with the key is replaced, or a
/// new one is added at the end.
pub open spec fn put<K, V>(s: Seq<(K, V)>, k: K, v: V) -> Seq<(K, V)> {
    match first_index(s, k) {
        Some(i) => s.update(i, (k, v)),
        None => s.push((k, v)),
    }
}

/// The generators with one added for a key in a category.
pub open spec fn gens_put(cats: Seq<(GeneratorCategory, GenEntries)>, c: GeneratorCategory, k: Seq<char>, g: Gen) -> Seq<(GeneratorCategory, GenEntries)> {
    match first_index(cats, c) {
        Some(i) => cats.update(i, (c, put(cats[i].1, k, g))),
        None => cats.push((c, seq![(k, g)])),
    }
}

/// What the first entry with a key is, by where it is.
pub proof fn lemma_first_of_index<K, V>(s: Seq<(K, V)>, k: K)
    ensures
        match first_index(s, k) {
            Some(i) => 0 <= i < s.len() && s[i].0 == k && first_of(s, k) == Some(s[i].1)
                && forall|j: int| 0 <= j < i ==> s[j].0 != k,
            None => first_of(s, k) is None && forall|j: int| 0 <= j < s.len() ==> s[j].0 != k,
        },
    decreases s.len(),
{
    if s.len() > 0 {
        lemma_first_of_index(s.drop_first(), k);
        assert forall|j: int| 1 <= j < s.len() implies s[j] == s.drop_first()[j - 1] by {}
    }
}

/// Setting a key gives that key its value and leaves the others.
pub proof fn lemma_put<K, V>(s: Seq<(K, V)>, k: K, v: V, k2: K)
    ensures
        first_of(put(s, k, v), k2) == if k2 == k { Some(v) } else { first_of(s, k2) },
{
    lemma_first_of_index(s, k);
    match first_index(s, k) {
        Some(i) => lemma_first_of_update(s, i, (k, v), k2),
        None => lemma_first_of_push(s, (k, v), k2),
    }
}

/// Adding a generator gives its key in its category that generator, and leaves every
/// other key of every category as it was.
pub proof fn lemma_gens_put(cats: Seq<(GeneratorCategory, GenEntries)>, c: GeneratorCategory, k: Seq<char>, g: Gen,
    c2: GeneratorCategory, k2: Seq<char>)
    ensures
        gen_lookup(gens_put(cats, c, k, g), c2, k2) == if c2 == c && k2 == k { Some(g) } else { gen_lookup(cats, c2, k2) },
{
    lemma_first_of_index(cats, c);
    match first_index(cats, c) {
        Some(i) => {
            lemma_first_of_update(cats, i, (c, put(cats[i].1, k, g)), c2);
            lemma_put(cats[i].1, k, g, k2);
        },
        None => {
            lemma_first_of_push(cats, (c, seq![(k, g)]), c2);
            lemma_put(Seq::<(Seq<char>, Gen)>::empty(), k, g, k2);
            assert(put(Seq::<(Seq<char>, Gen)>::empty(), k, g) =~= seq![(k, g)]);
        },
    }
}

/// The number written as a JSON number at a key, as an `i32`, or the default.
pub open spec fn field_i32(map: Seq<(Seq<char>, Json)>, key: Seq<char>, default: i32) -> i32 {
    match first_entry(map, key) {
        Some(Json::Number(t)) => match json_number_i64(t) {
            Some(v) => v as i32,
            None => default,
        },
        _ => default,
    }
}

/// The number written as a JSON number at a key, as a `u16`, or the default.
pub open spec fn field_u16(map: Seq<(Seq<char>, Json)>, key: Seq<char>, default: u16) -> u16 {
    match first_entry(map, key) {
        Some(Json::Number(t)) => match json_number_u64(t) {
            Some(v) => v as u16,
            None => default,
        },
        _ => default,
    }
}

/// The text of the value at a key, if there is one.
pub open spec fn field_string(map: Seq<(Seq<char>, Json)>, key: Seq<char>) -> Option<Seq<char>> {
    match first_entry(map, key) {
        Some(v) => Some(json_param_text(v)),
        None => None,
    }
}

/// The generator that a JSON map with a type describes, if the type is known.
pub open spec fn gen_from_map(t: Seq<char>, map: Seq<(Seq<char>, Json)>) -> Option<Gen> {
    if t == "RandomInt"@ {
        Some(Gen::RandomInt(field_i32(map, "min"@, 0), field_i32(map, "max"@, 10)))
    } else if t == "Uuid"@ {
        Some(Gen::Uuid)
    } else if t == "RandomDecimal"@ {
        Some(Gen::RandomDecimal(field_u16(map, "digits"@, 10)))
    } else if t == "RandomHexadecimal"@ {
        Some(Gen::RandomHexadecimal(field_u16(map, "digits"@, 10)))
    } else if t == "RandomString"@ {
        Some(Gen::RandomString(field_u16(map, "size"@, 10)))
    } else if t == "Regex"@ {
        match first_entry(map, "regex"@) {
            Some(v) => Some(Gen::Regex(json_param_text(v))),
            None => None,
        }
    } else if t == "Date"@ {
        Some(Gen::Date(field_string(map, "format"@)))
    } else if t == "Time"@ {
        Some(Gen::Time(field_string(map, "format"@)))
    } else if t == "DateTime"@ {
        Some(Gen::DateTime(field_string(map, "format"@)))
    } else if t == "RandomBoolean"@ {
        Some(Gen::RandomBoolean)
    } else if t == "ProviderState"@ {
        match first_entry(map, "expression"@) {
            Some(e) => Some(Gen::ProviderStateGenerator(json_param_text(e), match first_entry(map, "dataType"@) {
                Some(d) => Some(data_type_of(d)),
                None => None,
            })),
            None => None,
        }
    } else if t == "MockServerURL"@ {
        Some(Gen::MockServerURL(
            match field_string(map, "example"@) { Some(x) => x, None => Seq::empty() },
            match field_string(map, "regex"@) { Some(x) => x, None => Seq::empty() }))
    } else {
        None
    }
}

/// The generators with the one a JSON map describes added, when it has a known type.
pub open spec fn parse_one(cats: Seq<(GeneratorCategory, GenEntries)>, c: GeneratorCategory, map: Seq<(Seq<char>, Json)>, sub: Seq<char>) -> Seq<(GeneratorCategory, GenEntries)> {
    match first_entry(map, "type"@) {
        Some(Json::Str(t)) => match gen_from_map(t, map) {
            Some(g) => gens_put(cats, c, sub, g),
            None => cats,
        },
        _ => cats,
    }
}

/// The generators with those of the first `n` entries of a category's map added, each by
/// its key (entries that are not JSON objects are ignored).
pub open spec fn parse_subs(cats: Seq<(GeneratorCategory, GenEntries)>, c: GeneratorCategory, m: Seq<(Seq<char>, Json)>, n: nat) -> Seq<(GeneratorCategory, GenEntries)>
    decreases n,
{
    if n == 0 || n > m.len() {
        cats
    } else {
        let prev = parse_subs(cats, c, m, (n - 1) as nat);
        match m[n - 1].1 {
            Json::Object(o) => parse_one(prev, c, o, m[n - 1].0),
            _ => prev,
        }
    }
}

/// The generators with those of one category entry of a JSON map added.
pub open spec fn load_one(cats: Seq<(GeneratorCategory, GenEntries)>, k: Seq<char>, v: Json) -> Seq<(GeneratorCategory, GenEntries)> {
    match v {
        Json::Object(o) => match category_from_name(k) {
            Ok(c) => if single_category(c) { parse_one(cats, c, o, Seq::empty()) } else { parse_subs(cats, c, o, o.len()) },
            Err(_) => cats,
        },
        _ => cats,
    }
}

/// The generators with those of the first `n` entries of a JSON map added.
pub open spec fn load_all(cats: Seq<(GeneratorCategory, GenEntries)>, m: Seq<(Seq<char>, Json)>, n: nat) -> Seq<(GeneratorCategory, GenEntries)>
    decreases n,
{
    if n == 0 || n > m.len() {
        cats
    } else {
        load_one(load_all(cats, m, (n - 1) as nat), m[n - 1].0, m[n - 1].1)
    }
}

/// The JSON entry of one category, if it has one.
pub open spec fn category_json(c: GeneratorCategory, e: GenEntries) -> Seq<(Seq<char>, Json)> {
    if single_category(c) {
        match first_of(e, Seq::empty()) {
            Some(g) => seq![(category_name(c), gen_json(g))],
            None => Seq::empty(),
        }
    } else {
        seq![(category_name(c), Json::Object(e.map_values(|x: (Seq<char>, Gen)| (x.0, gen_json(x.1)))))]
    }
}

/// The JSON entries of the first `n` categories.
pub open spec fn categories_json(cats: Seq<(GeneratorCategory, GenEntries)>, n: nat) -> Seq<(Seq<char>, Json)>
    decreases n,
{
    if n == 0 || n > cats.len() {
        Seq::empty()
    } else {
        categories_json(cats, (n - 1) as nat) + category_json(cats[n - 1].0, cats[n - 1].1)
    }
}

/// The version of the pact specification.
#[derive(Debug, Clone, Copy, PartialEq, Eq, Structural)]
#[allow(non_camel_case_types)]
pub enum PactSpecification {
    /// Unknown or unsupported specification version
    Unknown,
    /// First version of the pact specification
    V1,
    /// Second version of the pact specification
    V1_1,
    /// Version two of the pact specification
    V2,
    /// Version three of the pact specification
    V3,
    /// Version four of the pact specification
    V4,
}

/// The number at a key, as an `i32`; see [`field_i32`].
fn field_i32_of(map: &Vec<(String, JsonValue)>, key: &str, default: i32) -> (r: i32)
    ensures
        r == field_i32(entry_views(map@), key@, default),
        forall|v: i32| first_entry(entry_views(map@), key@) == Some(Json::Number(#[trigger] int_text(v as int))) ==> r == v,
{
    proof { lemma_entry_views(map@); }
    match find_entry(map, key) {
        Some(i) => match &map[i].1 {
            JsonValue::Number(t) => match number_as_i64(t.as_str()) {
                Some(v) => v as i32,
                None => default,
            },
            _ => default,
        },
        None => default,
    }
}

/// The number at a key, as a `u16`; see [`field_u16`].
fn field_u16_of(map: &Vec<(String, JsonValue)>, key: &str, default: u16) -> (r: u16)
    ensures
        r == field_u16(entry_views(map@), key@, default),
        forall|v: u16| first_entry(entry_views(map@), key@) == Some(Json::Number(#[trigger] decimal(v as nat))) ==> r == v,
{
    proof { lemma_entry_views(map@); }
    match find_entry(map, key) {
        Some(i) => match &map[i].1 {
            JsonValue::Number(t) => match number_as_u64(t.as_str()) {
                Some(v) => v as u16,
                None => default,
            },
            _ => default,
        },
        None => default,
    }
}

/// The text of a JSON value used as a parameter: a string as it is, else its JSON text.
fn json_to_string(j: &JsonValue) -> (r: String)
    ensures
        r@ == json_param_text(j@),
{
    match j {
        JsonValue::Str(s) => s.clone(),
        _ => json_text(j),
    }
}

/// The text at a key; see [`field_string`].
fn field_string_of(map: &Vec<(String, JsonValue)>, key: &str) -> (r: Option<String>)
    ensures
        opt_str(r) == field_string(entry_views(map@), key@),
{
    proof { lemma_entry_views(map@); }
    match find_entry(map, key) {
        Some(i) => Some(json_to_string(&map[i].1)),
        None => None,
    }
}

impl Generator {
    /// Converts a JSON map into a generator, returning `None` if it can not be converted.
    /// The JSON form of any generator, read with its type, gives that generator back.
    pub fn from_map(gen_type: &str, map: &Vec<(String, JsonValue)>) -> (r: Option<Generator>)
        ensures
            match (r, gen_from_map(gen_type@, entry_views(map@))) {
                (Some(a), Some(b)) => a@ == b,
                (None, None) => true,
                _ => false,
            },
            forall|g: Gen| #[trigger] gen_json(g) == Json::Object(entry_views(map@))
                && first_entry(entry_views(map@), "type"@) == Some(Json::Str(gen_type@))
                ==> (r matches Some(x) && x@ == g),
    {
        proof {
            reveal_strlit("RandomInt");
            reveal_strlit("Uuid");
            reveal_strlit("RandomDecimal");
            reveal_strlit("RandomHexadecimal");
            reveal_strlit("RandomString");
            reveal_strlit("Regex");
            reveal_strlit("Date");
            reveal_strlit("Time");
            reveal_strlit("DateTime");
            reveal_strlit("RandomBoolean");
            reveal_strlit("ProviderState");
            reveal_strlit("MockServerURL");
            reveal_strlit("min");
            reveal_strlit("max");
            reveal_strlit("digits");
            reveal_strlit("size");
            reveal_strlit("regex");
            reveal_strlit("format");
            reveal_strlit("expression");
            reveal_strlit("dataType");
            reveal_strlit("example");
            lemma_entry_views(map@);
        }
        let r = if str_eq(gen_type, "RandomInt") {
            Some(Generator::RandomInt(field_i32_of(map, "min", 0), field_i32_of(map, "max", 10)))
        } else if str_eq(gen_type, "Uuid") {
            Some(Generator::Uuid)
        } else if str_eq(gen_type, "RandomDecimal") {
            Some(Generator::RandomDecimal(field_u16_of(map, "digits", 10)))
        } else if str_eq(gen_type, "RandomHexadecimal") {
            Some(Generator::RandomHexadecimal(field_u16_of(map, "digits", 10)))
        } else if str_eq(gen_type, "RandomString") {
            Some(Generator::RandomString(field_u16_of(map, "size", 10)))
        } else if str_eq(gen_type, "Regex") {
            match find_entry(map, "regex") {
                Some(i) => Some(Generator::Regex(json_to_string(&map[i].1))),
                None => None,
            }
        } else if str_eq(gen_type, "Date") {
            Some(Generator::Date(field_string_of(map, "format")))
        } else if str_eq(gen_type, "Time") {
            Some(Generator::Time(field_string_of(map, "format")))
        } else if str_eq(gen_type, "DateTime") {
            Some(Generator::DateTime(field_string_of(map, "format")))
        } else if str_eq(gen_type, "RandomBoolean") {
            Some(Generator::RandomBoolean)
        } else if str_eq(gen_type, "ProviderState") {
            match find_entry(map, "expression") {
                Some(i) => {
                    let data_type = match find_entry(map, "dataType") {
                        Some(d) => Some(DataType::from_json(&map[d].1)),
                        None => None,
                    };
                    Some(Generator::ProviderStateGenerator(json_to_string(&map[i].1), data_type))
                },
                None => None,
            }
        } else if str_eq(gen_type, "MockServerURL") {
            let example = match field_string_of(map, "example") {
                Some(x) => x,
                None => String::new(),
            };
            let regex = match field_string_of(map, "regex") {
                Some(x) => x,
                None => String::new(),
            };
            Some(Generator::MockServerURL(example, regex))
        } else {
            None
        };
        proof {
            assert(match (r, gen_from_map(gen_type@, entry_views(map@))) {
                (Some(a), Some(b)) => a@ == b,
                (None, None) => true,
                _ => false,
            });
            assert forall|g: Gen| #[trigger] gen_json(g) == Json::Object(entry_views(map@))
                && first_entry(entry_views(map@), "type"@) == Some(Json::Str(gen_type@))
                implies (r matches Some(x) && x@ == g) by {
                if g is RandomInt || g is RandomDecimal || g is RandomHexadecimal || g is RandomString {
                    crate::laws::lemma_numeric_generator_json(g);
                    match g {
                        Gen::RandomInt(min, max) => {
                            assert(gen_type@ == "RandomInt"@);
                            assert(field_i32(entry_views(map@), "min"@, 0) == min);
                            assert(field_i32(entry_views(map@), "max"@, 10) == max);
                        },
                        Gen::RandomDecimal(d) => {
                            assert(gen_type@ == "RandomDecimal"@);
                            assert(field_u16(entry_views(map@), "digits"@, 10) == d);
                        },
                        Gen::RandomHexadecimal(d) => {
                            assert(gen_type@ == "RandomHexadecimal"@);
                            assert(field_u16(entry_views(map@), "digits"@, 10) == d);
                        },
                        Gen::RandomString(n) => {
                            assert(gen_type@ == "RandomString"@);
                            assert(field_u16(entry_views(map@), "size"@, 10) == n);
                        },
                        _ => {},
                    }
                } else {
                    crate::laws::law_generator_read_back_from_its_json(g);
                    assert(gen_from_map(gen_type@, entry_views(map@)) == Some(g));
                }
            }
        }
        r
    }
}

/// The generators that apply in a mode, in order, with their keys.
pub fn apply_generators(mode: &GeneratorTestMode, generators: &Vec<(String, Generator)>) -> (r: Vec<(String, Generator)>)
    ensures
        gen_entries_view(r@) == gen_entries_view(generators@).filter(|e: (Seq<char>, Gen)| gen_corresponds_to_mode(e.1, *mode)),
{
    let mut out: Vec<(String, Generator)> = Vec::new();
    let mut i: usize = 0;
    while i < generators.len()
        invariant
            i <= generators.len(),
            gen_entries_view(out@) == gen_entries_view(generators@).subrange(0, i as int).filter(
                |e: (Seq<char>, Gen)| gen_corresponds_to_mode(e.1, *mode)),
        decreases generators.len() - i,
    {
        let ghost s = gen_entries_view(generators@).subrange(0, i + 1);
        proof {
            reveal(Seq::filter);
            assert(s.drop_last() =~= gen_entries_view(generators@).subrange(0, i as int));
            assert(s.last() == (generators@[i as int].0@, generators@[i as int].1@));
        }
        if generators[i].1.corresponds_to_mode(mode) {
            let ghost before = out@;
            out.push((generators[i].0.clone(), generators[i].1.copy()));
            proof {
                assert(gen_entries_view(out@) =~= gen_entries_view(before).push((generators@[i as int].0@, generators@[i as int].1@)));
            }
        }
        i = i + 1;
    }
    assert(gen_entries_view(generators@).subrange(0, generators.len() as int) =~= gen_entries_view(generators@));
    out
}

impl Generators {
    /// An empty collection.
    pub fn new() -> (r: Generators)
        ensures
            r@ == Seq::<(GeneratorCategory, GenEntries)>::empty(),
    {
        let r = Generators { categories: Vec::new() };
        assert(r@ =~= Seq::<(GeneratorCategory, GenEntries)>::empty());
        r
    }

    /// If the generators are empty (that is there are no generators in any category).
    pub fn is_empty(&self) -> (r: bool)
        ensures
            r == gens_empty(self@),
    {
        let mut i: usize = 0;
        while i < self.categories.len()
            invariant
                i <= self.categories.len(),
                forall|j: int| 0 <= j < i ==> (#[trigger] self@[j]).1.len() == 0,
            decreases self.categories.len() - i,
        {
            if self.categories[i].1.len() > 0 {
                assert(self@[i as int].1.len() > 0);
                return false;
            }
            i = i + 1;
        }
        true
    }

    /// If the generators are not empty (that is there is at least one generator in a category).
    pub fn is_not_empty(&self) -> (r: bool)
        ensures
            r == !gens_empty(self@),
    {
        !self.is_empty()
    }

    /// Adds the generator to the category (body, headers, etc.), under the empty key.
    pub fn add_generator(&mut self, category: &GeneratorCategory, generator: Generator)
        ensures
            final(self)@ == gens_put(old(self)@, *category, Seq::empty(), generator@),
    {
        proof { reveal_strlit(""); }
        self.add_generator_with_subcategory(category, "", generator);
        assert(""@ =~= Seq::<char>::empty());
    }

    /// Adds a generator to the category with a sub-category key (such as a header name or a
    /// query parameter), replacing the one the key had.
    pub fn add_generator_with_subcategory(&mut self, category: &GeneratorCategory, subcategory: &str, generator: Generator)
        ensures
            final(self)@ == gens_put(old(self)@, *category, subcategory@, generator@),
    {
        let ghost old_view = self@;
        let mut i: usize = 0;
        while i < self.categories.len() && self.categories[i].0 != *category
            invariant
                i <= self.categories.len(),
                self@ == old_view,
                forall|j: int| 0 <= j < i ==> old_view[j].0 != *category,
            decreases self.categories.len() - i,
        {
            i = i + 1;
        }
        if i == self.categories.len() {
            proof { lemma_first_index(old_view, *category, i as int); }
            let ghost gv = generator@;
            let mut entries: Vec<(String, Generator)> = Vec::new();
            entries.push((subcategory.to_string(), generator));
            assert(gen_entries_view(entries@) =~= seq![(subcategory@, gv)]);
            self.categories.push((*category, entries));
            assert(self@ =~= old_view.push((*category, seq![(subcategory@, gv)])));
        } else {
            proof { lemma_first_index(old_view, *category, i as int); }
            let ghost entries_view = old_view[i as int].1;
            let mut cat = self.categories.remove(i);
            let mut k: usize = 0;
            while k < cat.1.len() && !str_eq(cat.1[k].0.as_str(), subcategory)
                invariant
                    k <= cat.1.len(),
                    gen_entries_view(cat.1@) == entries_view,
                    forall|j: int| 0 <= j < k ==> entries_view[j].0 != subcategory@,
                decreases cat.1.len() - k,
            {
                k = k + 1;
            }
            proof { lemma_first_index(entries_view, subcategory@, k as int); }
            if k == cat.1.len() {
                cat.1.push((subcategory.to_string(), generator));
                assert(gen_entries_view(cat.1@) =~= entries_view.push((subcategory@, generator@)));
            } else {
                cat.1.set(k, (subcategory.to_string(), generator));
                assert(gen_entries_view(cat.1@) =~= entries_view.update(k as int, (subcategory@, generator@)));
            }
            self.categories.insert(i, cat);
            assert(self@ =~= old_view.update(i as int, (*category, put(entries_view, subcategory@, generator@))));
        }
    }
}

impl Generators {
    /// Adds the generator that a JSON map describes (with its `type`) to the category,
    /// under the sub-category key or the empty key; a map without a known type is ignored.
    pub fn parse_generator_from_map(&mut self, category: &GeneratorCategory, map: &Vec<(String, JsonValue)>, subcat: Option<String>)
        ensures
            final(self)@ == parse_one(old(self)@, *category, entry_views(map@), match subcat {
                Some(s) => s@,
                None => Seq::empty(),
            }),
    {
        proof {
            reveal_strlit("type");
            reveal_strlit("");
            lemma_entry_views(map@);
        }
        match find_entry(map, "type") {
            Some(i) => match &map[i].1 {
                JsonValue::Str(gen_type) => match Generator::from_map(gen_type.as_str(), map) {
                    Some(generator) => match subcat {
                        Some(s) => self.add_generator_with_subcategory(category, s.as_str(), generator),
                        None => self.add_generator(category, generator),
                    },
                    None => {},
                },
                _ => {},
            },
            None => {},
        }
    }

    /// Loads the generators of a JSON map: each key names a category; the method, path and
    /// status categories hold one generator, the others one generator per key.
    pub fn load_from_map(&mut self, map: &Vec<(String, JsonValue)>)
        ensures
            final(self)@ == load_all(old(self)@, entry_views(map@), map@.len() as nat),
    {
        proof { lemma_entry_views(map@); }
        let ghost start = self@;
        let mut i: usize = 0;
        while i < map.len()
            invariant
                i <= map.len(),
                entry_views(map@).len() == map.len(),
                forall|j: int| 0 <= j < map.len() ==> #[trigger] entry_views(map@)[j] == (map@[j].0@, map@[j].1@),
                self@ == load_all(start, entry_views(map@), i as nat),
            decreases map.len() - i,
        {
            match &map[i].1 {
                JsonValue::Object(inner) => {
                    proof { lemma_entry_views(inner@); }
                    match GeneratorCategory::from_str(map[i].0.as_str()) {
                        Ok(category) => {
                            if category == GeneratorCategory::PATH || category == GeneratorCategory::METHOD
                                || category == GeneratorCategory::STATUS {
                                self.parse_generator_from_map(&category, inner, None);
                            } else {
                                let ghost before = self@;
                                let mut k: usize = 0;
                                while k < inner.len()
                                    invariant
                                        k <= inner.len(),
                                        entry_views(inner@).len() == inner.len(),
                                        forall|j: int| 0 <= j < inner.len() ==> #[trigger] entry_views(inner@)[j] == (inner@[j].0@, inner@[j].1@),
                                        self@ == parse_subs(before, category, entry_views(inner@), k as nat),
                                    decreases inner.len() - k,
                                {
                                    match &inner[k].1 {
                                        JsonValue::Object(sub) => {
                                            self.parse_generator_from_map(&category, sub, Some(inner[k].0.clone()));
                                        },
                                        _ => {},
                                    }
                                    k = k + 1;
                                }
                            }
                        },
                        Err(_) => {},
                    }
                },
                _ => {},
            }
            i = i + 1;
        }
    }

    /// The JSON form of the generators: an object with an entry for each category.
    pub fn to_json(&self) -> (r: JsonValue)
        ensures
            r@ == Json::Object(categories_json(self@, self@.len())),
    {
        let mut out: Vec<(String, JsonValue)> = Vec::new();
        let mut i: usize = 0;
        while i < self.categories.len()
            invariant
                i <= self.categories.len(),
                entry_views(out@) == categories_json(self@, i as nat),
            decreases self.categories.len() - i,
        {
            proof { lemma_entry_views(out@); }
            let ghost before = entry_views(out@);
            let category = self.categories[i].0;
            let entries = &self.categories[i].1;
            let name = String::from_str(category.name());
            if category == GeneratorCategory::PATH || category == GeneratorCategory::METHOD
                || category == GeneratorCategory::STATUS {
                let mut k: usize = 0;
                while k < entries.len() && !entries[k].0.as_str().is_empty()
                    invariant
                        k <= entries.len(),
                        forall|j: int| 0 <= j < k ==> gen_entries_view(entries@)[j].0 != Seq::<char>::empty(),
                    decreases entries.len() - k,
                {
                    k = k + 1;
                }
                proof {
                    if k < entries.len() {
                        assert(gen_entries_view(entries@)[k as int].0 =~= Seq::<char>::empty());
                    }
                    lemma_first_index(gen_entries_view(entries@), Seq::<char>::empty(), k as int);
                    lemma_first_of_index(gen_entries_view(entries@), Seq::<char>::empty());
                }
                if k < entries.len() {
                    match entries[k].1.to_json() {
                        Some(j) => {
                            out.push((name, j));
                        },
                        None => {},
                    }
                }
            } else {
                let mut inner: Vec<(String, JsonValue)> = Vec::new();
                let mut k: usize = 0;
                while k < entries.len()
                    invariant
                        k <= entries.len(),
                        inner.len() == k,
                        forall|j: int| 0 <= j < k ==> #[trigger] inner@[j].0@ == entries@[j].0@ && inner@[j].1@ == gen_json(entries@[j].1@),
                    decreases entries.len() - k,
                {
                    match entries[k].1.to_json() {
                        Some(j) => inner.push((entries[k].0.clone(), j)),
                        None => inner.push((entries[k].0.clone(), JsonValue::Null)),
                    }
                    k = k + 1;
                }
                proof { lemma_entry_views(inner@); }
                assert(entry_views(inner@) =~= gen_entries_view(entries@).map_values(|x: (Seq<char>, Gen)| (x.0, gen_json(x.1))));
                out.push((name, JsonValue::Object(inner)));
            }
            proof { lemma_entry_views(out@); }
            assert(entry_views(out@) =~= before + category_json(self@[i as int].0, self@[i as int].1));
            i = i + 1;
        }
        proof { lemma_entry_views(out@); }
        JsonValue::Object(out)
    }
}

/// The generators that a pact's JSON describes: those under its `generators` key.
pub open spec fn gens_from_json(j: Json) -> Seq<(GeneratorCategory, GenEntries)> {
    match j {
        Json::Object(m) => match first_entry(m, "generators"@) {
            Some(Json::Object(g)) => load_all(Seq::empty(), g, g.len()),
            _ => Seq::empty(),
        },
        _ => Seq::empty(),
    }
}

/// Parses the generators from a pact's JSON.
pub fn generators_from_json(value: &JsonValue) -> (r: Generators)
    ensures
        r@ == gens_from_json(value@),
{
    proof { reveal_strlit("generators"); }
    let mut generators = Generators::new();
    match value {
        JsonValue::Object(m) => {
            proof { lemma_entry_views(m@); }
            match find_entry(m, "generators") {
                Some(i) => match &m[i].1 {
                    JsonValue::Object(g) => {
                        proof { lemma_entry_views(g@); }
                        generators.load_from_map(g);
                    },
                    _ => {},
                },
                None => {},
            }
        },
        _ => {},
    }
    generators
}

/// The JSON form of the generators for a version of the specification: version 3 and later
/// have generators, earlier ones none.
pub fn generators_to_json(generators: &Generators, spec_version: &PactSpecification) -> (r: JsonValue)
    ensures
        r@ == if *spec_version == PactSpecification::V3 || *spec_version == PactSpecification::V4 {
            Json::Object(categories_json(generators@, generators@.len()))
        } else {
            Json::Null
        },
{
    if *spec_version == PactSpecification::V3 || *spec_version == PactSpecification::V4 {
        generators.to_json()
    } else {
        JsonValue::Null
    }
}

/// Whether a character is a decimal digit.
pub open spec fn is_digit(c: char) -> bool {
    '0' <= c && c <= '9'
}

/// The decimal that `generate_decimal` makes from its random choices: the digits sampled,
/// a digit put in front when they start with two zeros, and the position of the point.
pub open spec fn decimal_text(digits: nat, sample: Seq<char>, lead: char, pos: nat) -> Seq<char> {
    if digits == 0 {
        Seq::empty()
    } else if digits == 1 {
        seq![sample[0]]
    } else if digits == 2 {
        seq![sample[0], '.', sample[1]]
    } else {
        let s = if sample[0] == '0' && sample[1] == '0' { seq![lead] + sample } else { sample };
        let selected = if pos != 1 && s[0] == '0' { s.subrange(1, digits + 1 as int) } else { s.subrange(0, digits as int) };
        selected.subrange(0, pos as int) + seq!['.'] + selected.subrange(pos as int, digits as int)
    }
}

/// Whether the text has a point at the position.
pub open spec fn point_at(r: Seq<char>, p: int) -> bool {
    r[p] == '.'
}

/// The shape of a generated decimal with `digits` digits: no text for none, one digit for
/// one, and otherwise the digits with a point between two of them, where the whole part
/// has no leading zero.
pub open spec fn decimal_shape(digits: nat, r: Seq<char>) -> bool {
    if digits == 0 {
        r.len() == 0
    } else if digits == 1 {
        r.len() == 1 && is_digit(r[0])
    } else {
        &&& r.len() == digits + 1
        &&& exists|p: int| 1 <= p < digits && #[trigger] point_at(r, p)
            && (forall|i: int| 0 <= i < r.len() && i != p ==> is_digit(#[trigger] r[i]))
            && (r[0] == '0' ==> p == 1)
    }
}

/// What `generate_decimal` makes from its random choices always has the shape of a decimal.
pub proof fn lemma_decimal_shape(digits: nat, sample: Seq<char>, lead: char, pos: nat)
    requires
        sample.len() == if digits >= 3 { digits + 1 } else { digits },
        forall|i: int| 0 <= i < sample.len() ==> is_digit(#[trigger] sample[i]),
        is_digit(lead) && lead != '0',
        digits >= 3 ==> 1 <= pos < digits - 1,
    ensures
        decimal_shape(digits, decimal_text(digits, sample, lead, pos)),
{
    let r = decimal_text(digits, sample, lead, pos);
    if digits == 2 {
        assert(point_at(r, 1));
        assert(forall|i: int| 0 <= i < r.len() && i != 1 ==> is_digit(#[trigger] r[i]));
    } else if digits >= 3 {
        let s = if sample[0] == '0' && sample[1] == '0' { seq![lead] + sample } else { sample };
        assert(forall|i: int| 0 <= i < s.len() ==> is_digit(#[trigger] s[i])) by {
            assert forall|i: int| 0 <= i < s.len() implies is_digit(#[trigger] s[i]) by {
                if sample[0] == '0' && sample[1] == '0' && i > 0 {
                    assert(s[i] == sample[i - 1]);
                }
            }
        }
        let selected = if pos != 1 && s[0] == '0' { s.subrange(1, digits + 1 as int) } else { s.subrange(0, digits as int) };
        assert(selected.len() == digits);
        assert(r =~= selected.subrange(0, pos as int) + seq!['.'] + selected.subrange(pos as int, digits as int));
        assert(point_at(r, pos as int));
        assert forall|i: int| 0 <= i < r.len() && i != pos implies is_digit(#[trigger] r[i]) by {
            if i < pos {
                assert(r[i] == selected[i]);
            } else {
                assert(r[i] == selected[i - 1]);
            }
        }
        if r[0] == '0' {
            assert(r[0] == selected[0]);
            if pos != 1 && s[0] == '0' {
                assert(selected[0] == s[1]);
                assert(!(sample[0] == '0' && sample[1] == '0'));
                assert(false);
            }
        }
    }
}

/// The decimal that `generate_decimal` makes from its random choices; see [`decimal_text`].
pub fn decimal_from(digits: usize, sample: &Vec<char>, lead: char, pos: usize) -> (r: String)
    requires
        sample@.len() == if digits >= 3 { digits + 1 } else { digits as int },
        digits >= 3 ==> 1 <= pos < digits - 1,
    ensures
        r@ == decimal_text(digits as nat, sample@, lead, pos as nat),
{
    let mut out = String::new();
    if digits == 0 {
    } else if digits == 1 {
        push_char(&mut out, sample[0]);
    } else if digits == 2 {
        push_char(&mut out, sample[0]);
        push_char(&mut out, '.');
        push_char(&mut out, sample[1]);
    } else {
        let mut s: Vec<char> = Vec::new();
        if sample[0] == '0' && sample[1] == '0' {
            s.push(lead);
        }
        let mut i: usize = 0;
        let ghost base = s@;
        while i < sample.len()
            invariant
                i <= sample.len(),
                s@ == base + sample@.subrange(0, i as int),
            decreases sample.len() - i,
        {
            s.push(sample[i]);
            i = i + 1;
        }
        assert(sample@.subrange(0, sample.len() as int) =~= sample@);
        let start: usize = if pos != 1 && s[0] == '0' { 1 } else { 0 };
        let mut k: usize = 0;
        while k < digits
            invariant
                k <= digits,
                digits >= 3,
                1 <= pos < digits - 1,
                start <= 1,
                s@.len() >= digits + start,
                out@ == if k <= pos {
                    s@.subrange(start as int, start + k)
                } else {
                    s@.subrange(start as int, start + pos) + seq!['.'] + s@.subrange(start + pos, start + k)
                },
            decreases digits - k,
        {
            if k == pos {
                push_char(&mut out, '.');
            }
            push_char(&mut out, s[start + k]);
            k = k + 1;
            assert(out@ =~= if k <= pos {
                s@.subrange(start as int, start + k)
            } else {
                s@.subrange(start as int, start + pos) + seq!['.'] + s@.subrange(start + pos, start + k)
            });
        }
        proof {
            let sp = if sample@[0] == '0' && sample@[1] == '0' { seq![lead] + sample@ } else { sample@ };
            assert(s@ =~= sp);
            let selected = if pos != 1 && sp[0] == '0' { sp.subrange(1, digits + 1) } else { sp.subrange(0, digits as int) };
            assert(selected =~= s@.subrange(start as int, start + digits));
            assert(out@ =~= selected.subrange(0, pos as int) + seq!['.'] + selected.subrange(pos as int, digits as int));
        }
    }
    assert(out@ =~= decimal_text(digits as nat, sample@, lead, pos as nat));
    out
}

/// The most repeats a regular expression generator writes for an unbounded repetition.
pub const MAX_REPEAT: u32 = 20;

/// The decimal digits, or those but zero.
fn digit_chars(non_zero: bool) -> (r: Vec<char>)
    ensures
        r.len() > 0,
        forall|i: int| 0 <= i < r.len() ==> is_digit(#[trigger] r@[i]) && (non_zero ==> r@[i] != '0'),
{
    if non_zero {
        vec!['1', '2', '3', '4', '5', '6', '7', '8', '9']
    } else {
        vec!['0', '1', '2', '3', '4', '5', '6', '7', '8', '9']
    }
}

/// A random decimal with the given number of digits.
pub fn generate_decimal(digits: usize) -> (r: String)
    requires
        digits < usize::MAX,
    ensures
        decimal_shape(digits as nat, r@),
{
    let count = if digits >= 3 { digits + 1 } else { digits };
    let all_digits = digit_chars(false);
    let non_zero_digits = digit_chars(true);
    let mut sample: Vec<char> = Vec::new();
    while sample.len() < count
        invariant
            sample.len() <= count,
            forall|i: int| 0 <= i < sample.len() ==> is_digit(#[trigger] sample@[i]),
            all_digits.len() > 0,
            forall|i: int| 0 <= i < all_digits.len() ==> is_digit(#[trigger] all_digits@[i]),
        decreases count - sample.len(),
    {
        sample.push(random_choice(&all_digits));
    }
    let lead = random_choice(&non_zero_digits);
    let pos = if digits >= 3 { random_index(1, digits - 1) } else { 0 };
    proof { lemma_decimal_shape(digits as nat, sample@, lead, pos as nat); }
    decimal_from(digits, &sample, lead, pos)
}

/// Random distinct hexadecimal digits, as many as asked for (at most sixteen).
pub fn generate_hexadecimal(digits: usize) -> (r: String)
    ensures
        r@.len() == if digits < 16 { digits } else { 16 },
        forall|i: int| 0 <= i < r@.len() ==> is_upper_hex_digit(#[trigger] r@[i]),
{
    let hex: Vec<char> = vec!['0', '1', '2', '3', '4', '5', '6', '7', '8', '9', 'A', 'B', 'C', 'D', 'E', 'F'];
    assert forall|i: int, j: int| 0 <= i < j < hex.len() implies hex@[i] != hex@[j] by {
        assert((hex@[i] as u32) < (hex@[j] as u32));
    }
    let r = random_pick(&hex, digits);
    assert forall|i: int| 0 <= i < r@.len() implies is_upper_hex_digit(#[trigger] r@[i]) by {
        let k = choose|k: int| 0 <= k < hex.len() && hex@[k] == r@[i];
    }
    r
}

/// A random string of ASCII letters and digits of the given size.
pub fn generate_ascii_string(size: usize) -> (r: String)
    ensures
        r@.len() == size,
        forall|i: int| 0 <= i < r@.len() ==> is_ascii_alphanumeric(#[trigger] r@[i]),
{
    random_alphanumeric(size)
}

/// A pattern without a `^` at the start and a `$` at the end; when it has no `$` at the end
/// it stays as it is.
pub open spec fn strip_anchors(re: Seq<char>) -> Seq<char> {
    let a = if re.len() > 0 && re[0] == '^' { re.drop_first() } else { re };
    if a.len() > 0 && a.last() == '$' { a.drop_last() } else { re }
}

fn strip_anchors_of(re: &str) -> (r: String)
    ensures
        r@ == strip_anchors(re@),
{
    let cs = chars_of(re);
    let n = cs.len();
    let from: usize = if n > 0 && cs[0] == '^' { 1 } else { 0 };
    if n > from && cs[n - 1] == '$' {
        let mut out: Vec<char> = Vec::new();
        let mut i = from;
        while i < n - 1
            invariant
                from <= i <= n - 1,
                n == cs.len(),
                out@ =~= cs@.subrange(from as int, i as int),
            decreases n - 1 - i,
        {
            out.push(cs[i]);
            i = i + 1;
        }
        let r = string_of(&out);
        assert(r@ =~= strip_anchors(re@));
        r
    } else {
        assert(cs@ =~= strip_anchors(re@));
        string_of(&cs)
    }
}

/// The exclusive end of the range of a random integer generator: one past the maximum,
/// unless that would overflow.
pub open spec fn int_range_end(max: i32) -> int {
    if max == i32::MAX { max as int } else { max + 1 }
}

/// Whether a generator can generate: the range of a random integer is not empty, and the
/// pattern of a date writes no field of the time of day.
pub open spec fn gen_can_generate(g: Gen) -> bool {
    match g {
        Gen::RandomInt(min, max) => min < int_range_end(max),
        Gen::Date(Some(p)) => date_pattern(p),
        _ => true,
    }
}

/// `MockServerURL: can not generate a value as there is no mock server details in the test context`.
pub open spec fn no_mock_server() -> Seq<char> {
    "MockServerURL: can not generate a value as there is no mock server details in the test context"@
}

/// The text of a group that took part in a match; nothing for one that did not.
pub open spec fn group_text(group: Option<Seq<char>>) -> Seq<char> {
    match group {
        Some(g) => g,
        None => Seq::empty(),
    }
}

/// The mock server URL made from the example: the first match of the regular expression is
/// replaced by the `url` (or `href`) of the mock server details in the context followed by
/// the match's first group. An example that does not match stays as it is. Details that are
/// not a JSON object give the error `not_object`.
pub open spec fn mock_server_url(ctx: Seq<(Seq<char>, Json)>, example: Seq<char>, re: Seq<char>, key: Seq<char>,
    not_object: Seq<char>) -> Result<Seq<char>, Seq<char>> {
    match first_entry(ctx, "mockServer"@) {
        Some(Json::Object(m)) => match field_string(m, key) {
            Some(url) => match regex_first_match(re, example) {
                Ok(Some((before, group, after))) => Ok(before + url + group_text(group) + after),
                Ok(None) => Ok(example),
                Err(e) => Err("MockServerURL: Failed to generate value: "@ + e),
            },
            None => Err("MockServerURL: can not generate a value as there is no mock server URL in the test context"@),
        },
        Some(_) => Err(not_object),
        None => Err(no_mock_server()),
    }
}

/// `MockServerURL: can not generate a value as the mock server details in the test context is not an Object`.
pub open spec fn mock_server_not_object() -> Seq<char> {
    "MockServerURL: can not generate a value as the mock server details in the test context is not an Object"@
}

/// The `Debug` form of an optional string: `Some("text")` or `None`.
pub open spec fn opt_debug(o: Option<Seq<char>>) -> Seq<char> {
    match o {
        Some(t) => "Some("@ + debug_string(t) + ")"@,
        None => "None"@,
    }
}

/// The `Debug` form of a generator: the variant's name and its fields as `Debug` writes them,
/// as in `RandomInt(1, 10)` or `Regex("\\d+")`.
pub open spec fn gen_debug(g: Gen) -> Seq<char> {
    match g {
        Gen::RandomInt(a, b) => "RandomInt("@ + int_text(a as int) + ", "@ + int_text(b as int) + ")"@,
        Gen::Uuid => "Uuid"@,
        Gen::RandomDecimal(d) => "RandomDecimal("@ + decimal(d as nat) + ")"@,
        Gen::RandomHexadecimal(d) => "RandomHexadecimal("@ + decimal(d as nat) + ")"@,
        Gen::RandomString(n) => "RandomString("@ + decimal(n as nat) + ")"@,
        Gen::Regex(r) => "Regex("@ + debug_string(r) + ")"@,
        Gen::Date(f) => "Date("@ + opt_debug(f) + ")"@,
        Gen::Time(f) => "Time("@ + opt_debug(f) + ")"@,
        Gen::DateTime(f) => "DateTime("@ + opt_debug(f) + ")"@,
        Gen::RandomBoolean => "RandomBoolean"@,
        Gen::ProviderStateGenerator(e, d) => "ProviderStateGenerator("@ + debug_string(e) + ", "@ + match d {
            Some(t) => "Some("@ + data_type_name(t) + ")"@,
            None => "None"@,
        } + ")"@,
        Gen::MockServerURL(a, b) => "MockServerURL("@ + debug_string(a) + ", "@ + debug_string(b) + ")"@,
    }
}

/// The numbers a random integer generator draws a `u16` from: the bounds cut to `u16`, the
/// upper one raised by one unless it is already the largest `u16`.
pub open spec fn u16_range(min: i32, max: i32) -> (int, int) {
    let hi = max as u16;
    (min as u16 as int, if hi == u16::MAX { hi as int } else { hi + 1 })
}

/// Whether a generator can make a `u16`: a random integer generator needs a range with a
/// number in it.
pub open spec fn gen_can_generate_u16(g: Gen) -> bool {
    match g {
        Gen::RandomInt(min, max) => u16_range(min, max).0 < u16_range(min, max).1,
        _ => true,
    }
}

/// What generating a `u16` in place of an example gives: a number in the range for a random
/// integer generator; the value looked up in the provider state context, read as a `u16`;
/// otherwise `Could not generate a u16 value from <value> using <generator>`.
pub open spec fn gen_u16_outcome(g: Gen, value: u16, ctx: Seq<(Seq<char>, Json)>, r: Result<u16, Seq<char>>) -> bool {
    match g {
        Gen::RandomInt(min, max) => r matches Ok(v) && u16_range(min, max).0 <= v < u16_range(min, max).1,
        Gen::ProviderStateGenerator(e, _) => r == match context_value(ctx, e) {
            Ok(t) => u16_from_text(t),
            Err(m) => Err(m),
        },
        _ => r == Err::<u16, Seq<char>>("Could not generate a u16 value from "@ + decimal(value as nat) + " using "@ + gen_debug(g)),
    }
}

/// What generating a string gives, as far as it does not depend on chance or the clock.
pub open spec fn gen_string_outcome(g: Gen, ctx: Seq<(Seq<char>, Json)>, r: Result<Seq<char>, Seq<char>>) -> bool {
    match g {
        Gen::RandomInt(min, max) => r matches Ok(s) && exists|v: int| min <= v < int_range_end(max) && s == int_text(v),
        Gen::Uuid => r matches Ok(s) && uuid_hyphenated_shape(s),
        Gen::RandomDecimal(d) => r matches Ok(s) && decimal_shape(d as nat, s),
        Gen::RandomHexadecimal(d) => r matches Ok(s) && s.len() == (if d < 16 { d as nat } else { 16 })
            && forall|i: int| 0 <= i < s.len() ==> is_upper_hex_digit(#[trigger] s[i]),
        Gen::RandomString(n) => r matches Ok(s) && s.len() == n
            && forall|i: int| 0 <= i < s.len() ==> is_ascii_alphanumeric(#[trigger] s[i]),
        Gen::Regex(re) => {
            let p = strip_anchors(re);
            match regex_parse_error(p) {
                Some(e) => r == Err::<Seq<char>, Seq<char>>(seq!['\''] + re + "' is not a valid regular expression - "@ + e),
                None => match regex_sampler_error(p, MAX_REPEAT) {
                    Some(e) => r == Err::<Seq<char>, Seq<char>>("Failed to generate a value from regular expression - "@ + e),
                    None => r is Ok,
                },
            }
        },
        Gen::Date(f) => match f {
            Some(p) => now_outcome("Date format "@, p, r),
            None => r is Ok,
        },
        Gen::Time(f) => match f {
            Some(p) => now_outcome("Time format "@, p, r),
            None => r is Ok,
        },
        Gen::DateTime(f) => match f {
            Some(p) => now_outcome("DateTime format "@, p, r),
            None => r is Ok,
        },
        Gen::RandomBoolean => r matches Ok(s) && (s == "true"@ || s == "false"@),
        Gen::ProviderStateGenerator(e, _) => r == context_value(ctx, e),
        Gen::MockServerURL(example, re) => r == mock_server_url(ctx, example, re, "url"@, no_mock_server()),
    }
}

/// What writing the date or time now with a pattern gives: a text when the pattern gives a
/// `chrono` format, else `<What> format <pattern> is not valid - <why>`.
pub open spec fn now_outcome(what: Seq<char>, p: Seq<char>, r: Result<Seq<char>, Seq<char>>) -> bool {
    match chrono_format(p) {
        Ok(_) => r is Ok,
        Err(e) => r == Err::<Seq<char>, Seq<char>>(what + p + " is not valid - "@ + e),
    }
}

/// The mock server URL made from the example; see [`mock_server_url`].
fn mock_server_url_of(context: &Vec<(String, JsonValue)>, example: &str, regex: &str, key: &str, not_object: &str) -> (r: Result<String, String>)
    ensures
        match (r, mock_server_url(entry_views(context@), example@, regex@, key@, not_object@)) {
            (Ok(a), Ok(b)) => a@ == b,
            (Err(a), Err(b)) => a@ == b,
            _ => false,
        },
{
    proof {
        lemma_entry_views(context@);
        reveal_strlit("mockServer");
        reveal_strlit("MockServerURL: Failed to generate value: ");
        reveal_strlit("MockServerURL: can not generate a value as there is no mock server URL in the test context");
        reveal_strlit("MockServerURL: can not generate a value as there is no mock server details in the test context");
    }
    match find_entry(context, "mockServer") {
        Some(i) => match &context[i].1 {
            JsonValue::Object(m) => match field_string_of(m, key) {
                Some(url) => match regex_first_captures(regex, example) {
                    Ok(Some((before, group, after))) => {
                        let ghost b = before@;
                        let mut s = before;
                        push_str(&mut s, url.as_str());
                        match group {
                            Some(g) => push_str(&mut s, g.as_str()),
                            None => {},
                        }
                        push_str(&mut s, after.as_str());
                        proof {
                            assert(s@ =~= b + url@ + group_text(match group { Some(g) => Some(g@), None => None }) + after@);
                        }
                        Ok(s)
                    },
                    Ok(None) => Ok(String::from_str(example)),
                    Err(e) => {
                        let mut msg = String::from_str("MockServerURL: Failed to generate value: ");
                        push_str(&mut msg, e.as_str());
                        Err(msg)
                    },
                },
                None => Err(String::from_str("MockServerURL: can not generate a value as there is no mock server URL in the test context")),
            },
            _ => Err(String::from_str(not_object)),
        },
        None => Err(String::from_str("MockServerURL: can not generate a value as there is no mock server details in the test context")),
    }
}

/// The date, the time of day, or both, now: written with the pattern, or with the ISO
/// default when there is none; see [`now_outcome`].
fn formatted_now(what: &str, pattern: &Option<String>, default: &str, date_only: bool) -> (r: Result<String, String>)
    requires
        chrono_safe(default@),
        date_only ==> format_safe(default@, true),
        date_only ==> (pattern matches Some(p) ==> date_pattern(p@)),
    ensures
        match pattern {
            Some(p) => now_outcome(what@, p@, match r {
                Ok(s) => Ok::<Seq<char>, Seq<char>>(s@),
                Err(e) => Err::<Seq<char>, Seq<char>>(e@),
            }),
            None => r is Ok,
        },
{
    proof { reveal_strlit(" is not valid - "); }
    let format = match pattern {
        Some(p) => match to_chrono_format(p.as_str()) {
            Ok(f) => f,
            Err(e) => {
                let mut m = String::from_str(what);
                push_str(&mut m, p.as_str());
                push_str(&mut m, " is not valid - ");
                push_str(&mut m, e.as_str());
                return Err(m);
            },
        },
        None => String::from_str(default),
    };
    if date_only {
        Ok(local_today(format.as_str()))
    } else {
        Ok(local_now(format.as_str()))
    }
}

/// The ISO default formats are safe to write with.
proof fn lemma_defaults_safe()
    ensures
        format_safe("%Y-%m-%d"@, true),
        chrono_safe("%Y-%m-%d"@),
        chrono_safe("%H:%M:%S"@),
        chrono_safe("%Y-%m-%dT%H:%M:%S.%3f%z"@),
{
    reveal_strlit("%Y-%m-%d");
    reveal_strlit("%H:%M:%S");
    reveal_strlit("%Y-%m-%dT%H:%M:%S.%3f%z");
    reveal_with_fuel(format_safe, 16);
}

impl Generator {
    /// Generates a string value: a new random value of the kind of the generator, the value
    /// of an expression in the provider state context, or a mock server URL.
    pub fn generate_string(&self, context: &Vec<(String, JsonValue)>) -> (r: Result<String, String>)
        requires
            gen_can_generate(self@),
        ensures
            gen_string_outcome(self@, entry_views(context@), match r {
                Ok(s) => Ok::<Seq<char>, Seq<char>>(s@),
                Err(e) => Err::<Seq<char>, Seq<char>>(e@),
            }),
    {
        proof {
            reveal_strlit("' is not a valid regular expression - ");
            reveal_strlit("Failed to generate a value from regular expression - ");
            reveal_strlit("Date format ");
            reveal_strlit("Time format ");
            reveal_strlit("DateTime format ");
            reveal_strlit("true");
            reveal_strlit("false");
            reveal_strlit("url");
        }
        match self {
            Generator::RandomInt(min, max) => {
                let end: i32 = if *max == i32::MAX { *max } else { *max + 1 };
                let v = random_int(*min, end);
                let s = int_string(v);
                assert(exists|w: int| *min <= w < int_range_end(*max) && s@ == int_text(w)) by {
                    assert(*min <= v as int && (v as int) < int_range_end(*max) && s@ == int_text(v as int));
                }
                Ok(s)
            },
            Generator::Uuid => Ok(uuid_v4_hyphenated()),
            Generator::RandomDecimal(digits) => Ok(generate_decimal(*digits as usize)),
            Generator::RandomHexadecimal(digits) => Ok(generate_hexadecimal(*digits as usize)),
            Generator::RandomString(size) => Ok(generate_ascii_string(*size as usize)),
            Generator::Regex(regex) => {
                let pattern = strip_anchors_of(regex.as_str());
                match regex_sample(pattern.as_str(), MAX_REPEAT) {
                    Ok(s) => Ok(s),
                    Err((true, e)) => {
                        let mut m = String::new();
                        push_char(&mut m, '\'');
                        push_str(&mut m, regex.as_str());
                        push_str(&mut m, "' is not a valid regular expression - ");
                        push_str(&mut m, e.as_str());
                        assert(m@ =~= seq!['\''] + regex@ + "' is not a valid regular expression - "@ + e@);
                        Err(m)
                    },
                    Err((false, e)) => {
                        let mut m = String::from_str("Failed to generate a value from regular expression - ");
                        push_str(&mut m, e.as_str());
                        Err(m)
                    },
                }
            },
            Generator::Date(format) => {
                proof { lemma_defaults_safe(); }
                formatted_now("Date format ", format, "%Y-%m-%d", true)
            },
            Generator::Time(format) => {
                proof { lemma_defaults_safe(); }
                formatted_now("Time format ", format, "%H:%M:%S", false)
            },
            Generator::DateTime(format) => {
                proof { lemma_defaults_safe(); }
                formatted_now("DateTime format ", format, "%Y-%m-%dT%H:%M:%S.%3f%z", false)
            },
            Generator::RandomBoolean => {
                if random_bool() { Ok(String::from_str("true")) } else { Ok(String::from_str("false")) }
            },
            Generator::ProviderStateGenerator(expression, _) => generate_value_from_context(expression.as_str(), context),
            Generator::MockServerURL(example, regex) => mock_server_url_of(context, example.as_str(), regex.as_str(), "url",
                "MockServerURL: can not generate a value as there is no mock server details in the test context"),
        }
    }
}

/// `Could not generate <what> from <value>`.
/// The text of a decimal read as a floating point number and written again as a JSON
/// number: a whole number gets `.0`, and zeros at the end of the fraction go, leaving at
/// least one digit after the point.
pub open spec fn number_text(t: Seq<char>) -> Seq<char> {
    if t.contains('.') { trim_fraction_zeros(t) } else { t + ".0"@ }
}

/// The text without the zeros at its end that stand after a digit of the fraction.
pub open spec fn trim_fraction_zeros(t: Seq<char>) -> Seq<char>
    decreases t.len(),
{
    if t.len() >= 2 && t.last() == '0' && t[t.len() - 2] != '.' {
        trim_fraction_zeros(t.drop_last())
    } else {
        t
    }
}

pub open spec fn could_not(what: Seq<char>, v: Json) -> Seq<char> {
    "Could not generate "@ + what + " from "@ + serde_json_text(v)
}

/// What generating a JSON value in place of an example gives, as far as it does not depend on
/// chance or the clock: a generated string where the example is a string (a number where a
/// number is, for integers and decimals), or the error.
pub open spec fn gen_json_outcome(g: Gen, v: Json, ctx: Seq<(Seq<char>, Json)>, r: Result<Json, Seq<char>>) -> bool {
    match g {
        Gen::RandomInt(min, max) => match v {
            Json::Str(_) => r matches Ok(Json::Str(s)) && exists|x: int| min <= x < int_range_end(max) && s == int_text(x),
            Json::Number(_) => r matches Ok(Json::Number(s)) && exists|x: int| min <= x < int_range_end(max) && s == int_text(x),
            _ => r == Err::<Json, Seq<char>>(could_not("a random int"@, v)),
        },
        Gen::Uuid => match v {
            Json::Str(_) => r matches Ok(Json::Str(s)) && s.len() == 32,
            _ => r == Err::<Json, Seq<char>>(could_not("a UUID"@, v)),
        },
        Gen::RandomDecimal(d) => match v {
            Json::Str(_) => r matches Ok(Json::Str(s)) && decimal_shape(d as nat, s),
            Json::Number(_) => if d == 0 {
                r == Err::<Json, Seq<char>>(could_not("a random decimal"@, v) + " - cannot parse float from empty string"@)
            } else {
                r matches Ok(Json::Number(s)) && exists|t: Seq<char>| decimal_shape(d as nat, t) && s == #[trigger] number_text(t)
            },
            _ => r == Err::<Json, Seq<char>>(could_not("a random decimal"@, v)),
        },
        Gen::RandomHexadecimal(d) => match v {
            Json::Str(_) => r matches Ok(Json::Str(s)) && s.len() == (if d < 16 { d as nat } else { 16 }),
            _ => r == Err::<Json, Seq<char>>(could_not("a random hexadecimal"@, v)),
        },
        Gen::RandomString(n) => match v {
            Json::Str(_) => r matches Ok(Json::Str(s)) && s.len() == n,
            _ => r == Err::<Json, Seq<char>>(could_not("a random string"@, v)),
        },
        Gen::Regex(re) => match regex_parse_error(re) {
            Some(e) => r == Err::<Json, Seq<char>>("Could not generate a random string from "@ + re + " - "@ + e),
            None => match regex_sampler_error(re, MAX_REPEAT) {
                Some(e) => r == Err::<Json, Seq<char>>("Failed to generate a value from regular expression - "@ + e),
                None => r matches Ok(Json::Str(_)),
            },
        },
        Gen::Date(f) => match f {
            Some(p) => now_outcome("Date format "@, p, match r {
                Ok(Json::Str(s)) => Ok::<Seq<char>, Seq<char>>(s),
                Ok(_) => Err::<Seq<char>, Seq<char>>(Seq::empty()),
                Err(e) => Err::<Seq<char>, Seq<char>>(e),
            }) && !(r matches Ok(j) && !(j is Str)),
            None => r matches Ok(Json::Str(_)),
        },
        Gen::Time(f) => match f {
            Some(p) => now_outcome("Time format "@, p, match r {
                Ok(Json::Str(s)) => Ok::<Seq<char>, Seq<char>>(s),
                Ok(_) => Err::<Seq<char>, Seq<char>>(Seq::empty()),
                Err(e) => Err::<Seq<char>, Seq<char>>(e),
            }) && !(r matches Ok(j) && !(j is Str)),
            None => r matches Ok(Json::Str(_)),
        },
        Gen::DateTime(f) => match f {
            Some(p) => now_outcome("DateTime format "@, p, match r {
                Ok(Json::Str(s)) => Ok::<Seq<char>, Seq<char>>(s),
                Ok(_) => Err::<Seq<char>, Seq<char>>(Seq::empty()),
                Err(e) => Err::<Seq<char>, Seq<char>>(e),
            }) && !(r matches Ok(j) && !(j is Str)),
            None => r matches Ok(Json::Str(_)),
        },
        Gen::RandomBoolean => r matches Ok(Json::Bool(_)),
        Gen::ProviderStateGenerator(e, _) => r == context_json(ctx, e),
        Gen::MockServerURL(example, re) => match mock_server_url(ctx, example, re, "href"@, mock_server_not_object()) {
            Ok(s) => r == Ok::<Json, Seq<char>>(Json::Str(s)),
            Err(e) => r == Err::<Json, Seq<char>>(e),
        },
    }
}

/// The text of a decimal as a JSON number; see [`number_text`].
fn number_text_of(t: &String) -> (r: String)
    ensures
        r@ == number_text(t@),
{
    let cs = chars_of(t.as_str());
    let mut has_point = false;
    let mut i: usize = 0;
    while i < cs.len()
        invariant
            i <= cs.len(),
            cs@ == t@,
            has_point == exists|j: int| 0 <= j < i && cs@[j] == '.',
        decreases cs.len() - i,
    {
        if cs[i] == '.' {
            has_point = true;
        }
        i = i + 1;
    }
    proof {
        if has_point {
            let j = choose|j: int| 0 <= j < cs.len() && cs@[j] == '.';
            assert(t@[j] == '.');
        }
    }
    assert(has_point == t@.contains('.'));
    if !has_point {
        proof { reveal_strlit(".0"); }
        let mut r = t.clone();
        push_str(&mut r, ".0");
        return r;
    }
    let mut n: usize = cs.len();
    assert(cs@.subrange(0, cs.len() as int) =~= t@);
    while n >= 2 && cs[n - 1] == '0' && cs[n - 2] != '.'
        invariant
            n <= cs.len(),
            cs@ == t@,
            trim_fraction_zeros(cs@.subrange(0, n as int)) == trim_fraction_zeros(t@),
        decreases n,
    {
        assert(cs@.subrange(0, n - 1) =~= cs@.subrange(0, n as int).drop_last());
        n = n - 1;
    }
    assert(trim_fraction_zeros(cs@.subrange(0, n as int)) == cs@.subrange(0, n as int));
    let mut out: Vec<char> = Vec::new();
    let mut k: usize = 0;
    while k < n
        invariant
            k <= n,
            n <= cs.len(),
            out@ =~= cs@.subrange(0, k as int),
        decreases n - k,
    {
        out.push(cs[k]);
        k = k + 1;
    }
    string_of(&out)
}

/// Appends the `Debug` form of an optional string; see [`opt_debug`].
fn push_opt_debug(s: &mut String, o: &Option<String>)
    ensures
        final(s)@ == old(s)@ + opt_debug(opt_str(*o)),
{
    proof {
        reveal_strlit("Some(");
        reveal_strlit(")");
        reveal_strlit("None");
    }
    match o {
        Some(t) => {
            push_str(s, "Some(");
            push_str(s, debug_str(t.as_str()).as_str());
            push_str(s, ")");
        },
        None => push_str(s, "None"),
    }
    assert(s@ =~= old(s)@ + opt_debug(opt_str(*o)));
}

fn could_not_of(what: &str, v: &JsonValue) -> (r: String)
    ensures
        r@ == could_not(what@, v@),
{
    proof {
        reveal_strlit("Could not generate ");
        reveal_strlit(" from ");
    }
    let mut m = String::from_str("Could not generate ");
    push_str(&mut m, what);
    push_str(&mut m, " from ");
    let text = json_text(v);
    push_str(&mut m, text.as_str());
    m
}

impl Generator {
    /// The `Debug` form of the generator; see [`gen_debug`].
    pub fn debug_form(&self) -> (r: String)
        ensures
            r@ == gen_debug(self@),
    {
        proof {
            reveal_strlit("RandomInt(");
            reveal_strlit(", ");
            reveal_strlit(")");
            reveal_strlit("Uuid");
            reveal_strlit("RandomDecimal(");
            reveal_strlit("RandomHexadecimal(");
            reveal_strlit("RandomString(");
            reveal_strlit("Regex(");
            reveal_strlit("Date(");
            reveal_strlit("Time(");
            reveal_strlit("DateTime(");
            reveal_strlit("RandomBoolean");
            reveal_strlit("ProviderStateGenerator(");
            reveal_strlit("MockServerURL(");
            reveal_strlit("Some(");
            reveal_strlit("None");
        }
        let mut s = String::new();
        match self {
            Generator::RandomInt(a, b) => {
                push_str(&mut s, "RandomInt(");
                push_str(&mut s, int_string(*a).as_str());
                push_str(&mut s, ", ");
                push_str(&mut s, int_string(*b).as_str());
                push_str(&mut s, ")");
            },
            Generator::Uuid => push_str(&mut s, "Uuid"),
            Generator::RandomDecimal(d) => {
                push_str(&mut s, "RandomDecimal(");
                push_decimal(&mut s, *d as u64);
                push_str(&mut s, ")");
            },
            Generator::RandomHexadecimal(d) => {
                push_str(&mut s, "RandomHexadecimal(");
                push_decimal(&mut s, *d as u64);
                push_str(&mut s, ")");
            },
            Generator::RandomString(n) => {
                push_str(&mut s, "RandomString(");
                push_decimal(&mut s, *n as u64);
                push_str(&mut s, ")");
            },
            Generator::Regex(r) => {
                push_str(&mut s, "Regex(");
                push_str(&mut s, debug_str(r.as_str()).as_str());
                push_str(&mut s, ")");
            },
            Generator::Date(f) => {
                push_str(&mut s, "Date(");
                push_opt_debug(&mut s, f);
                push_str(&mut s, ")");
            },
            Generator::Time(f) => {
                push_str(&mut s, "Time(");
                push_opt_debug(&mut s, f);
                push_str(&mut s, ")");
            },
            Generator::DateTime(f) => {
                push_str(&mut s, "DateTime(");
                push_opt_debug(&mut s, f);
                push_str(&mut s, ")");
            },
            Generator::RandomBoolean => push_str(&mut s, "RandomBoolean"),
            Generator::ProviderStateGenerator(e, d) => {
                push_str(&mut s, "ProviderStateGenerator(");
                push_str(&mut s, debug_str(e.as_str()).as_str());
                push_str(&mut s, ", ");
                match d {
                    Some(t) => {
                        push_str(&mut s, "Some(");
                        push_str(&mut s, t.name());
                        push_str(&mut s, ")");
                    },
                    None => push_str(&mut s, "None"),
                }
                push_str(&mut s, ")");
            },
            Generator::MockServerURL(a, b) => {
                push_str(&mut s, "MockServerURL(");
                push_str(&mut s, debug_str(a.as_str()).as_str());
                push_str(&mut s, ", ");
                push_str(&mut s, debug_str(b.as_str()).as_str());
                push_str(&mut s, ")");
            },
        }
        assert(s@ =~= gen_debug(self@));
        s
    }

    /// Generates a `u16` in place of an example value; see [`gen_u16_outcome`].
    pub fn generate_u16(&self, value: u16, context: &Vec<(String, JsonValue)>) -> (r: Result<u16, String>)
        requires
            gen_can_generate_u16(self@),
        ensures
            gen_u16_outcome(self@, value, entry_views(context@), match r {
                Ok(v) => Ok::<u16, Seq<char>>(v),
                Err(e) => Err::<u16, Seq<char>>(e@),
            }),
    {
        match self {
            Generator::RandomInt(min, max) => {
                let lo = *min as u16;
                let top = *max as u16;
                let hi = if top == u16::MAX { top } else { top + 1 };
                Ok(random_u16(lo, hi))
            },
            Generator::ProviderStateGenerator(e, _) => match generate_value_from_context(e.as_str(), context) {
                Ok(t) => parse_u16(t.as_str()),
                Err(m) => Err(m),
            },
            _ => {
                proof {
                    reveal_strlit("Could not generate a u16 value from ");
                    reveal_strlit(" using ");
                }
                let mut m = String::from_str("Could not generate a u16 value from ");
                push_decimal(&mut m, value as u64);
                push_str(&mut m, " using ");
                push_str(&mut m, self.debug_form().as_str());
                Err(m)
            },
        }
    }

    /// Generates a list of strings in place of an example list: the one string that
    /// [`Generator::generate_string`] makes, alone in the list.
    pub fn generate_string_list(&self, values: &Vec<String>, context: &Vec<(String, JsonValue)>) -> (r: Result<Vec<String>, String>)
        requires
            gen_can_generate(self@),
        ensures
            match r {
                Ok(v) => v@.len() == 1 && gen_string_outcome(self@, entry_views(context@), Ok::<Seq<char>, Seq<char>>(v@[0]@)),
                Err(e) => gen_string_outcome(self@, entry_views(context@), Err::<Seq<char>, Seq<char>>(e@)),
            },
    {
        match self.generate_string(context) {
            Ok(s) => {
                let mut v: Vec<String> = Vec::new();
                v.push(s);
                Ok(v)
            },
            Err(e) => Err(e),
        }
    }

    /// Generates a JSON value in place of an example value; see [`gen_json_outcome`].
    pub fn generate_json(&self, value: &JsonValue, context: &Vec<(String, JsonValue)>) -> (r: Result<JsonValue, String>)
        requires
            gen_can_generate(self@),
        ensures
            gen_json_outcome(self@, value@, entry_views(context@), match r {
                Ok(j) => Ok::<Json, Seq<char>>(j@),
                Err(e) => Err::<Json, Seq<char>>(e@),
            }),
    {
        proof {
            reveal_strlit("a random int");
            reveal_strlit("a UUID");
            reveal_strlit("a random decimal");
            reveal_strlit("a random hexadecimal");
            reveal_strlit("a random string");
            reveal_strlit("Could not generate a random string from ");
            reveal_strlit(" - ");
            reveal_strlit("Failed to generate a value from regular expression - ");
            reveal_strlit("Date format ");
            reveal_strlit("Time format ");
            reveal_strlit("DateTime format ");
            reveal_strlit("href");
            lemma_entry_views(context@);
        }
        let is_str = match value { JsonValue::Str(_) => true, _ => false };
        let is_num = match value { JsonValue::Number(_) => true, _ => false };
        match self {
            Generator::RandomInt(min, max) => {
                if !is_str && !is_num {
                    return Err(could_not_of("a random int", value));
                }
                let end: i32 = if *max == i32::MAX { *max } else { *max + 1 };
                let v = random_int(*min, end);
                let s = int_string(v);
                assert(*min <= v as int && (v as int) < int_range_end(*max) && s@ == int_text(v as int));
                if is_str { Ok(JsonValue::Str(s)) } else { Ok(JsonValue::Number(s)) }
            },
            Generator::Uuid => if is_str { Ok(JsonValue::Str(uuid_v4_simple())) } else { Err(could_not_of("a UUID", value)) },
            Generator::RandomDecimal(digits) => if is_str {
                Ok(JsonValue::Str(generate_decimal(*digits as usize)))
            } else if is_num {
                if *digits == 0 {
                    proof { reveal_strlit(" - cannot parse float from empty string"); }
                    let mut m = could_not_of("a random decimal", value);
                    push_str(&mut m, " - cannot parse float from empty string");
                    Err(m)
                } else {
                    let t = generate_decimal(*digits as usize);
                    Ok(JsonValue::Number(number_text_of(&t)))
                }
            } else {
                Err(could_not_of("a random decimal", value))
            },
            Generator::RandomHexadecimal(digits) => if is_str {
                Ok(JsonValue::Str(generate_hexadecimal(*digits as usize)))
            } else {
                Err(could_not_of("a random hexadecimal", value))
            },
            Generator::RandomString(size) => if is_str {
                Ok(JsonValue::Str(generate_ascii_string(*size as usize)))
            } else {
                Err(could_not_of("a random string", value))
            },
            Generator::Regex(regex) => match regex_sample(regex.as_str(), MAX_REPEAT) {
                Ok(s) => Ok(JsonValue::Str(s)),
                Err((true, e)) => {
                    let mut m = String::from_str("Could not generate a random string from ");
                    push_str(&mut m, regex.as_str());
                    push_str(&mut m, " - ");
                    push_str(&mut m, e.as_str());
                    Err(m)
                },
                Err((false, e)) => {
                    let mut m = String::from_str("Failed to generate a value from regular expression - ");
                    push_str(&mut m, e.as_str());
                    Err(m)
                },
            },
            Generator::Date(format) => {
                proof { lemma_defaults_safe(); }
                match formatted_now("Date format ", format, "%Y-%m-%d", true) {
                    Ok(s) => Ok(JsonValue::Str(s)),
                    Err(e) => Err(e),
                }
            },
            Generator::Time(format) => {
                proof { lemma_defaults_safe(); }
                match formatted_now("Time format ", format, "%H:%M:%S", false) {
                    Ok(s) => Ok(JsonValue::Str(s)),
                    Err(e) => Err(e),
                }
            },
            Generator::DateTime(format) => {
                proof { lemma_defaults_safe(); }
                match formatted_now("DateTime format ", format, "%Y-%m-%dT%H:%M:%S.%3f%z", false) {
                    Ok(s) => Ok(JsonValue::Str(s)),
                    Err(e) => Err(e),
                }
            },
            Generator::RandomBoolean => Ok(JsonValue::Bool(random_bool())),
            Generator::ProviderStateGenerator(expression, _) => json_value_from_context(expression.as_str(), context),
            Generator::MockServerURL(example, regex) => match mock_server_url_of(context, example.as_str(), regex.as_str(), "href",
                "MockServerURL: can not generate a value as the mock server details in the test context is not an Object") {
                Ok(s) => Ok(JsonValue::Str(s)),
                Err(e) => Err(e),
            },
        }
    }
}

} // verus!
