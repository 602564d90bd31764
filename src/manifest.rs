use vstd::prelude::*;

use crate::dependency::Crate;

verus! {

/// A value of a parsed configuration document, as far as the manifest logic
/// reads it: strings, arrays and tables; every other kind of value is `Other`.
#[derive(Debug)]
pub enum ConfigValue {
    Str(String),
    Array(Vec<ConfigValue>),
    Table(Vec<(String, ConfigValue)>),
    Other,
}

/// Why a manifest yields no dependency list.
#[derive(Debug)]
pub enum ManifestError {
    /// The file could not be read.
    Unreadable(String),
    /// The text is not a valid document; holds the parser's message.
    Unparseable(String),
    /// The document has no top-level `dependencies` table.
    NoDependencies,
}

#[verifier::external_type_specification]
#[verifier::external_body]
pub struct ExTomlValue(toml::Value);

#[verifier::external_type_specification]
#[verifier::external_body]
pub struct ExTomlError(toml::de::Error);

/// The top-level table that the TOML parser makes of a text, with its entries
/// in the parser's iteration order, or `None` where the text is not TOML.
pub uninterp spec fn toml_document(text: Seq<char>) -> Option<Vec<(String, ConfigValue)>>;

/// Relies on toml's `FromStr` for `toml::Table`: parses a whole document into
/// its top-level table, or fails with `toml::de::Error`.
#[verifier::external_body]
fn parse_toml(text: &str) -> (r: Result<Vec<(String, ConfigValue)>, toml::de::Error>)
    ensures
        match r {
            Ok(doc) => toml_document(text@) == Some(doc),
            Err(_) => toml_document(text@) is None,
        },
{
    text.parse::<toml::Table>().map(|t| t.into_iter().map(|(k, v)| (k, config_value(v))).collect())
}

/// Relies on the variants of `toml::Value`: strings, arrays and tables keep
/// their contents, every other kind becomes `Other`.
#[verifier::external_body]
fn config_value(v: toml::Value) -> ConfigValue {
    match v {
        toml::Value::String(s) => ConfigValue::Str(s),
        toml::Value::Array(a) => ConfigValue::Array(a.into_iter().map(config_value).collect()),
        toml::Value::Table(t) => ConfigValue::Table(t.into_iter().map(|(k, x)| (k, config_value(x))).collect()),
        _ => ConfigValue::Other,
    }
}

/// Relies on the `Display` of `toml::de::Error`: the parser's message, with
/// the place in the text where it stopped.
#[verifier::external_body]
fn toml_error_message(e: &toml::de::Error) -> String {
    e.to_string()
}

/// The value of the first entry named `key`.
pub open spec fn lookup(entries: Seq<(String, ConfigValue)>, key: Seq<char>) -> Option<ConfigValue>
    decreases entries.len(),
{
    if entries.len() == 0 {
        None
    } else if entries[0].0@ == key {
        Some(entries[0].1)
    } else {
        lookup(entries.drop_first(), key)
    }
}

/// The strings among `items`, in order; items of other kinds are skipped.
pub open spec fn string_items(items: Seq<ConfigValue>) -> Seq<Seq<char>>
    decreases items.len(),
{
    if items.len() == 0 {
        Seq::empty()
    } else {
        match items.last() {
            ConfigValue::Str(s) => string_items(items.drop_last()).push(s@),
            _ => string_items(items.drop_last()),
        }
    }
}

/// `parts` joined by commas.
pub open spec fn join_commas(parts: Seq<Seq<char>>) -> Seq<char>
    decreases parts.len(),
{
    if parts.len() == 0 {
        Seq::empty()
    } else if parts.len() == 1 {
        parts[0]
    } else {
        join_commas(parts.drop_last()) + seq![','] + parts.last()
    }
}

/// The version constraint an entry declares: the string itself, or the
/// `version` string of a table; empty otherwise.
pub open spec fn declared_version(v: ConfigValue) -> Seq<char> {
    match v {
        ConfigValue::Str(s) => s@,
        ConfigValue::Table(t) => match lookup(t@, "version"@) {
            Some(ConfigValue::Str(s)) => s@,
            _ => Seq::empty(),
        },
        _ => Seq::empty(),
    }
}

/// The features an entry declares: the strings of the `features` array of a
/// table, joined by commas; empty otherwise.
pub open spec fn declared_features(v: ConfigValue) -> Seq<char> {
    match v {
        ConfigValue::Table(t) => match lookup(t@, "features"@) {
            Some(ConfigValue::Array(a)) => join_commas(string_items(a@)),
            _ => Seq::empty(),
        },
        _ => Seq::empty(),
    }
}

/// `c` is what the manifest entry `name = v` declares.
pub open spec fn declares(c: Crate, name: String, v: ConfigValue) -> bool {
    &&& c.name@ == name@
    &&& c.version@ == declared_version(v)
    &&& c.features@ == declared_features(v)
}

/// `r` is the outcome of reading the dependencies of document `doc`: one
/// record per entry of its `dependencies` table, in order, or `NoDependencies`
/// where it has no such table.
pub open spec fn reads_dependencies(
    doc: Seq<(String, ConfigValue)>,
    r: Result<Vec<Crate>, ManifestError>,
) -> bool {
    match lookup(doc, "dependencies"@) {
        Some(ConfigValue::Table(deps)) => match r {
            Ok(list) => {
                &&& list@.len() == deps@.len()
                &&& forall|i: int|
                    0 <= i < deps@.len() ==> declares(#[trigger] list@[i], deps@[i].0, deps@[i].1)
            },
            Err(_) => false,
        },
        _ => r matches Err(ManifestError::NoDependencies),
    }
}

/// The value of the first entry of `entries` named `key`.
pub fn find_entry<'a>(entries: &'a Vec<(String, ConfigValue)>, key: &String) -> (r: Option<
    &'a ConfigValue,
>)
    ensures
        match r {
            Some(v) => lookup(entries@, key@) == Some(*v),
            None => lookup(entries@, key@) is None,
        },
{
    let mut i: usize = 0;
    assert(entries@.subrange(0, entries@.len() as int) =~= entries@);
    while i < entries.len()
        invariant
            i <= entries@.len(),
            lookup(entries@, key@) == lookup(entries@.subrange(i as int, entries@.len() as int), key@),
        decreases entries@.len() - i,
    {
        let ghost rest = entries@.subrange(i as int, entries@.len() as int);
        if entries[i].0 == *key {
            return Some(&entries[i].1);
        }
        assert(rest.drop_first() =~= entries@.subrange(i + 1, entries@.len() as int));
        i = i + 1;
    }
    None
}

/// The strings among `items` joined by commas.
pub fn join_strings(items: &Vec<ConfigValue>) -> (r: String)
    ensures
        r@ == join_commas(string_items(items@)),
{
    let mut r = String::new();
    let mut any = false;
    let mut i: usize = 0;
    while i < items.len()
        invariant
            i <= items@.len(),
            r@ == join_commas(string_items(items@.take(i as int))),
            any == (string_items(items@.take(i as int)).len() > 0),
        decreases items@.len() - i,
    {
        let ghost before = string_items(items@.take(i as int));
        assert(items@.take(i + 1).drop_last() =~= items@.take(i as int));
        match &items[i] {
            ConfigValue::Str(s) => {
                assert(before.push(s@).drop_last() =~= before);
                proof {
                    reveal_strlit(",");
                }
                if any {
                    r.append(",");
                }
                r.append(s.as_str());
                any = true;
            },
            _ => {},
        }
        i = i + 1;
    }
    assert(items@.take(items@.len() as int) =~= items@);
    r
}

/// The dependency that the manifest entry `name = value` declares. A string
/// is the version constraint; a table gives its `version` string and the
/// strings of its `features` array. Any other value declares neither.
pub fn dependency_from_value(name: String, value: &ConfigValue) -> (c: Crate)
    ensures
        declares(c, name, *value),
{
    let mut c = Crate::new_by_name(name);
    match value {
        ConfigValue::Str(s) => {
            c.version = s.clone();
        },
        ConfigValue::Table(t) => {
            let version_key = String::from_str("version");
            match find_entry(t, &version_key) {
                Some(ConfigValue::Str(s)) => {
                    c.version = s.clone();
                },
                _ => {},
            }
            let features_key = String::from_str("features");
            match find_entry(t, &features_key) {
                Some(ConfigValue::Array(a)) => {
                    c.features = join_strings(a);
                },
                _ => {},
            }
        },
        _ => {},
    }
    c
}

/// The dependencies that a parsed document declares, in the order of its
/// `dependencies` table; `NoDependencies` where it has no such table.
pub fn dependencies_of(doc: &Vec<(String, ConfigValue)>) -> (r: Result<Vec<Crate>, ManifestError>)
    ensures
        reads_dependencies(doc@, r),
        !(lookup(doc@, "dependencies"@) matches Some(ConfigValue::Table(_))) ==> r matches Err(
            ManifestError::NoDependencies,
        ),
{
    let key = String::from_str("dependencies");
    match find_entry(doc, &key) {
        Some(ConfigValue::Table(deps)) => {
            let mut list: Vec<Crate> = Vec::new();
            let mut i: usize = 0;
            while i < deps.len()
                invariant
                    i <= deps@.len(),
                    list@.len() == i,
                    forall|j: int| 0 <= j < i ==> declares(#[trigger] list@[j], deps@[j].0, deps@[j].1),
                decreases deps@.len() - i,
            {
                let entry = &deps[i];
                let c = dependency_from_value(entry.0.clone(), &entry.1);
                list.push(c);
                i = i + 1;
            }
            Ok(list)
        },
        _ => Err(ManifestError::NoDependencies),
    }
}

/// The dependencies that the manifest text declares. Fails with
/// `Unparseable` where the text is not TOML, and with `NoDependencies` where
/// the document has no top-level `dependencies` table.
pub fn parse_cargo(text: &str) -> (r: Result<Vec<Crate>, ManifestError>)
    ensures
        match toml_document(text@) {
            None => r matches Err(ManifestError::Unparseable(_)),
            Some(doc) => reads_dependencies(doc@, r),
        },
{
    match parse_toml(text) {
        Ok(doc) => dependencies_of(&doc),
        Err(e) => Err(ManifestError::Unparseable(toml_error_message(&e))),
    }
}

/// The text of each item of an array whose items are all strings.
pub open spec fn texts(items: Seq<ConfigValue>) -> Seq<Seq<char>> {
    items.map_values(|v: ConfigValue| v->Str_0@)
}

/// In an array of strings no item is skipped.
pub proof fn lemma_string_items_all(items: Seq<ConfigValue>)
    requires
        forall|i: int| 0 <= i < items.len() ==> #[trigger] items[i] is Str,
    ensures
        string_items(items) == texts(items),
    decreases items.len(),
{
    if items.len() > 0 {
        let t = items.drop_last();
        assert forall|i: int| 0 <= i < t.len() implies #[trigger] t[i] is Str by {
            assert(t[i] == items[i]);
        }
        lemma_string_items_all(t);
        assert(items[items.len() - 1] is Str);
        assert(texts(items) =~= texts(t).push(items.last()->Str_0@));
    }
}

/// A table entry with a `version` string, and either no `features` or a
/// `features` array of strings, reads back as exactly that version and those
/// features, in their order, joined by commas.
pub proof fn lemma_table_entry_round_trip(
    c: Crate,
    name: String,
    t: Vec<(String, ConfigValue)>,
    version: String,
    features: Seq<ConfigValue>,
)
    requires
        declares(c, name, ConfigValue::Table(t)),
        lookup(t@, "version"@) == Some(ConfigValue::Str(version)),
        match lookup(t@, "features"@) {
            Some(ConfigValue::Array(a)) => a@ == features,
            None => features.len() == 0,
            _ => false,
        },
        forall|i: int| 0 <= i < features.len() ==> #[trigger] features[i] is Str,
    ensures
        c.name@ == name@,
        c.version@ == version@,
        c.features@ == join_commas(texts(features)),
{
    lemma_string_items_all(features);
    if features.len() == 0 {
        assert(texts(features) =~= Seq::<Seq<char>>::empty());
    }
}

/// Every part is non-empty and holds no comma.
pub open spec fn plain_parts(parts: Seq<Seq<char>>) -> bool {
    forall|i: int|
        0 <= i < parts.len() ==> (#[trigger] parts[i]).len() > 0 && !parts[i].contains(',')
}

/// The join of non-empty parts is empty only for no parts, and holds a comma
/// once there are two or more.
proof fn lemma_join_commas_shape(parts: Seq<Seq<char>>)
    requires
        plain_parts(parts),
    ensures
        parts.len() > 0 ==> join_commas(parts).len() > 0,
        parts.len() > 1 ==> join_commas(parts).contains(','),
        parts.len() == 1 ==> join_commas(parts) == parts[0],
{
    if parts.len() > 1 {
        let j = join_commas(parts.drop_last());
        assert((j + seq![','] + parts.last())[j.len() as int] == ',');
    }
    if parts.len() > 0 {
        assert(parts[0].len() > 0);
        if parts.len() > 1 {
            assert(parts.last() == parts[parts.len() - 1]);
        }
    }
}

/// Lists of non-empty feature names without commas that join to the same
/// text are the same list: the joined features of a record give back the
/// declared list.
pub proof fn lemma_join_commas_injective(a: Seq<Seq<char>>, b: Seq<Seq<char>>)
    requires
        plain_parts(a),
        plain_parts(b),
        join_commas(a) == join_commas(b),
    ensures
        a == b,
    decreases a.len(),
{
    lemma_join_commas_shape(a);
    lemma_join_commas_shape(b);
    if a.len() == 0 || b.len() == 0 {
        assert(a =~= b);
    } else if a.len() == 1 || b.len() == 1 {
        assert(a.len() == 1 && b.len() == 1);
        assert(a =~= b);
    } else {
        let (a0, b0) = (a.drop_last(), b.drop_last());
        let (x, y) = (a.last(), b.last());
        let (ja, jb) = (join_commas(a0), join_commas(b0));
        let j = join_commas(a);
        assert(j == ja + seq![','] + x);
        assert(j == jb + seq![','] + y);
        assert(x == a[a.len() - 1] && y == b[b.len() - 1]);
        if x.len() < y.len() {
            let p = j.len() - x.len() - 1;
            assert(j[p] == ',');
            assert(y[p - jb.len() - 1] == j[p]);
            assert(y.contains(','));
        } else if y.len() < x.len() {
            let p = j.len() - y.len() - 1;
            assert(j[p] == ',');
            assert(x[p - ja.len() - 1] == j[p]);
            assert(x.contains(','));
        } else {
            assert(ja =~= j.subrange(0, ja.len() as int));
            assert(jb =~= j.subrange(0, jb.len() as int));
            assert(x =~= j.subrange(j.len() - x.len(), j.len() as int));
            assert(y =~= j.subrange(j.len() - y.len(), j.len() as int));
            assert forall|i: int| 0 <= i < a0.len() implies (#[trigger] a0[i]).len() > 0
                && !a0[i].contains(',') by {
                assert(a0[i] == a[i]);
            }
            assert forall|i: int| 0 <= i < b0.len() implies (#[trigger] b0[i]).len() > 0
                && !b0[i].contains(',') by {
                assert(b0[i] == b[i]);
            }
            lemma_join_commas_injective(a0, b0);
            assert(a =~= a0.push(x));
            assert(b =~= b0.push(y));
        }
    }
}

} // verus!
