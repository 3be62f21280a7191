//! The model catalog: descriptors read tolerantly from the listing's JSON,
//! the resolution of a model's prompt template and stop words, and the list
//! of chat models.

use vstd::prelude::*;
use vstd::string::StringExecFns;
use crate::text::{chars_le, text_le, lemma_chars_le_total};
use crate::json::{Json, field, string_of, parsed_json, parse_json, get_field, as_text, str_equal};

verus! {

/// The placeholder that a prompt template holds for the user's text.
pub open spec fn placeholder() -> Seq<char> {
    "{prompt}"@
}

/// The placeholder, as a string.
pub fn placeholder_text() -> (r: String)
    ensures
        r@ == placeholder(),
{
    String::from_str("{prompt}")
}

/// A model's prompt template and stop words.
pub struct ModelConfig {
    pub prompt: String,
    pub stop_words: Vec<String>,
}

pub struct ConfigView {
    pub prompt: Seq<char>,
    pub stop_words: Seq<Seq<char>>,
}

pub open spec fn texts_view(v: Seq<String>) -> Seq<Seq<char>> {
    v.map_values(|s: String| s@)
}

impl View for ModelConfig {
    type V = ConfigView;

    open spec fn view(&self) -> ConfigView {
        ConfigView { prompt: self.prompt@, stop_words: texts_view(self.stop_words@) }
    }
}

/// The configuration used where the catalog declares none: the bare
/// placeholder and no stop words.
pub open spec fn default_config() -> ConfigView {
    ConfigView { prompt: placeholder(), stop_words: Seq::empty() }
}

impl ModelConfig {
    /// The bare placeholder as template, and no stop words.
    pub fn default_config() -> (r: ModelConfig)
        ensures
            r@ == default_config(),
    {
        let r = ModelConfig { prompt: placeholder_text(), stop_words: Vec::new() };
        assert(r@.stop_words =~= Seq::<Seq<char>>::empty());
        r
    }
}

/// The `config` object of a descriptor, as far as it could be read.
pub enum DeclaredConfig {
    Usable(ModelConfig),
    /// Its `stop` array holds a value that is not a string.
    Malformed,
}

/// One entry of the catalog.
pub struct ModelDescriptor {
    pub name: String,
    pub display_type: Option<String>,
    pub is_featured: bool,
    pub config: Option<DeclaredConfig>,
}

pub struct DescriptorView {
    pub name: Seq<char>,
    pub display_type: Option<Seq<char>>,
    pub is_featured: bool,
    /// `None` where there is no `config` object, `Some(None)` where it is malformed.
    pub config: Option<Option<ConfigView>>,
}

impl View for ModelDescriptor {
    type V = DescriptorView;

    open spec fn view(&self) -> DescriptorView {
        DescriptorView {
            name: self.name@,
            display_type: match self.display_type {
                Some(t) => Some(t@),
                None => None,
            },
            is_featured: self.is_featured,
            config: match self.config {
                Some(DeclaredConfig::Usable(c)) => Some(Some(c@)),
                Some(DeclaredConfig::Malformed) => Some(None),
                None => None,
            },
        }
    }
}

pub open spec fn descriptors_view(v: Seq<ModelDescriptor>) -> Seq<DescriptorView> {
    v.map_values(|d: ModelDescriptor| d@)
}

/// The text of a member that is a string.
pub open spec fn text_member(j: Json, key: Seq<char>) -> Option<Seq<char>> {
    match field(j, key) {
        Some(x) => string_of(x),
        None => None,
    }
}

/// The stop words of an array, or `None` where one of its values is not a string.
pub open spec fn stop_list(items: Seq<Json>) -> Option<Seq<Seq<char>>>
    decreases items.len(),
{
    if items.len() == 0 {
        Some(Seq::empty())
    } else {
        match (stop_list(items.drop_last()), string_of(items.last())) {
            (Some(l), Some(s)) => Some(l.push(s)),
            _ => None,
        }
    }
}

/// What a `config` object declares: `prompt_format` where it is a string,
/// else the placeholder; the `stop` array where there is one, else none.
pub open spec fn config_of(c: Json) -> Option<ConfigView> {
    let prompt = match text_member(c, "prompt_format"@) {
        Some(p) => p,
        None => placeholder(),
    };
    match field(c, "stop"@) {
        Some(Json::Array(items)) => match stop_list(items@) {
            Some(l) => Some(ConfigView { prompt, stop_words: l }),
            None => None,
        },
        _ => Some(ConfigView { prompt, stop_words: Seq::empty() }),
    }
}

/// The descriptor that an entry of the listing gives: an object with a
/// string `name`; anything else gives none.
pub open spec fn descriptor_of(j: Json) -> Option<DescriptorView> {
    match text_member(j, "name"@) {
        Some(name) => Some(
            DescriptorView {
                name,
                display_type: text_member(j, "display_type"@),
                is_featured: field(j, "isFeaturedModel"@) == Some(Json::Bool(true)),
                config: match field(j, "config"@) {
                    Some(Json::Object(m)) => Some(config_of(Json::Object(m))),
                    _ => None,
                },
            },
        ),
        None => None,
    }
}

/// The descriptors of the entries, in order, skipping those that give none.
pub open spec fn descriptors_of(items: Seq<Json>) -> Seq<DescriptorView>
    decreases items.len(),
{
    if items.len() == 0 {
        Seq::empty()
    } else {
        match descriptor_of(items.last()) {
            Some(d) => descriptors_of(items.drop_last()).push(d),
            None => descriptors_of(items.drop_last()),
        }
    }
}

/// Why the catalog is not at hand.
pub enum CatalogError {
    /// The listing could not be fetched; the transport's message.
    Transport(String),
    /// The listing is not a JSON array.
    Malformed,
}

/// The stop words of a JSON array.
fn read_stop_list(items: &Vec<Json>) -> (r: Option<Vec<String>>)
    ensures
        match r {
            Some(v) => stop_list(items@) == Some(texts_view(v@)),
            None => stop_list(items@) is None,
        },
{
    let mut out: Vec<String> = Vec::new();
    let mut i: usize = 0;
    while i < items.len()
        invariant
            0 <= i <= items@.len(),
            stop_list(items@.subrange(0, i as int)) == Some(texts_view(out@)),
        decreases items.len() - i,
    {
        proof {
            assert(items@.subrange(0, i + 1).drop_last() =~= items@.subrange(0, i as int));
        }
        match as_text(&items[i]) {
            Some(s) => {
                out.push(s.clone());
                assert(texts_view(out@) =~= texts_view(out@.drop_last()).push(s@));
            },
            None => {
                proof {
                    let pre = items@.subrange(0, i + 1);
                    assert forall|k: int| i + 1 <= k <= items@.len() implies
                        #[trigger] stop_list(items@.subrange(0, k)) is None by {
                        lemma_stop_list_none(items@, i + 1, k);
                    }
                    assert(items@.subrange(0, items@.len() as int) =~= items@);
                }
                return None;
            },
        }
        i = i + 1;
    }
    assert(items@.subrange(0, i as int) =~= items@);
    Some(out)
}

proof fn lemma_stop_list_none(items: Seq<Json>, i: int, k: int)
    requires
        0 <= i <= k <= items.len(),
        stop_list(items.subrange(0, i)) is None,
    ensures
        stop_list(items.subrange(0, k)) is None,
    decreases k - i,
{
    if k > i {
        lemma_stop_list_none(items, i, k - 1);
        assert(items.subrange(0, k).drop_last() =~= items.subrange(0, k - 1));
    }
}

/// The text of member `key` of `j`, where it is a string.
fn read_text_member(j: &Json, key: &str) -> (r: Option<String>)
    ensures
        match r {
            Some(t) => text_member(*j, key@) == Some(t@),
            None => text_member(*j, key@) is None,
        },
{
    match get_field(j, key) {
        Some(x) => match as_text(x) {
            Some(t) => Some(t.clone()),
            None => None,
        },
        None => None,
    }
}

/// What a `config` object declares.
fn read_config(c: &Json) -> (r: DeclaredConfig)
    ensures
        match r {
            DeclaredConfig::Usable(m) => config_of(*c) == Some(m@),
            DeclaredConfig::Malformed => config_of(*c) is None,
        },
{
    let prompt = match read_text_member(c, "prompt_format") {
        Some(p) => p,
        None => placeholder_text(),
    };
    match get_field(c, "stop") {
        Some(Json::Array(items)) => match read_stop_list(items) {
            Some(stop_words) => DeclaredConfig::Usable(ModelConfig { prompt, stop_words }),
            None => DeclaredConfig::Malformed,
        },
        _ => {
            let m = ModelConfig { prompt, stop_words: Vec::new() };
            assert(m@.stop_words =~= Seq::<Seq<char>>::empty());
            DeclaredConfig::Usable(m)
        },
    }
}

/// The descriptor of one entry of the listing, where it has one.
pub fn read_descriptor(j: &Json) -> (r: Option<ModelDescriptor>)
    ensures
        match r {
            Some(d) => descriptor_of(*j) == Some(d@),
            None => descriptor_of(*j) is None,
        },
{
    let name = match read_text_member(j, "name") {
        Some(n) => n,
        None => {
            return None;
        },
    };
    let display_type = read_text_member(j, "display_type");
    let is_featured = match get_field(j, "isFeaturedModel") {
        Some(Json::Bool(b)) => *b,
        _ => false,
    };
    let config = match get_field(j, "config") {
        Some(c) => match c {
            Json::Object(_) => Some(read_config(c)),
            _ => None,
        },
        None => None,
    };
    let d = ModelDescriptor { name, display_type, is_featured, config };
    proof {
        let dv = descriptor_of(*j).unwrap();
        assert(dv.is_featured == d@.is_featured);
        assert(dv.display_type == d@.display_type);
        assert(dv.config == d@.config);
    }
    Some(d)
}

/// The catalog that a parsed listing holds: the descriptors of its entries,
/// where it is an array.
pub open spec fn catalog_of(j: Json) -> Option<Seq<DescriptorView>> {
    match j {
        Json::Array(items) => Some(descriptors_of(items@)),
        _ => None,
    }
}

/// The descriptors of a parsed listing; entries that are not well-formed
/// objects are skipped, a listing that is not an array is refused.
pub fn catalog_from_json(j: &Json) -> (r: Result<Vec<ModelDescriptor>, CatalogError>)
    ensures
        match catalog_of(*j) {
            Some(ds) => r matches Ok(v) && descriptors_view(v@) == ds,
            None => r matches Err(CatalogError::Malformed),
        },
{
    match j {
        Json::Array(items) => {
            let mut out: Vec<ModelDescriptor> = Vec::new();
            let mut i: usize = 0;
            while i < items.len()
                invariant
                    0 <= i <= items@.len(),
                    descriptors_view(out@) == descriptors_of(items@.subrange(0, i as int)),
                decreases items.len() - i,
            {
                proof {
                    assert(items@.subrange(0, i + 1).drop_last() =~= items@.subrange(0, i as int));
                }
                match read_descriptor(&items[i]) {
                    Some(d) => {
                        out.push(d);
                        assert(descriptors_view(out@) =~= descriptors_view(out@.drop_last()).push(d@));
                    },
                    None => {},
                }
                i = i + 1;
            }
            assert(items@.subrange(0, i as int) =~= items@);
            Ok(out)
        },
        _ => Err(CatalogError::Malformed),
    }
}

/// The catalog of a listing's body as the server sent it.
pub fn parse_catalog(body: &str) -> (r: Result<Vec<ModelDescriptor>, CatalogError>)
    ensures
        match parsed_json(body@) {
            Some(j) => match catalog_of(j) {
                Some(ds) => r matches Ok(v) && descriptors_view(v@) == ds,
                None => r matches Err(CatalogError::Malformed),
            },
            None => r matches Err(CatalogError::Malformed),
        },
{
    match parse_json(body) {
        Some(j) => catalog_from_json(&j),
        None => Err(CatalogError::Malformed),
    }
}

/// The first descriptor named `name`.
pub open spec fn find_model(ds: Seq<DescriptorView>, name: Seq<char>) -> Option<DescriptorView>
    decreases ds.len(),
{
    if ds.len() == 0 {
        None
    } else if ds[0].name == name {
        Some(ds[0])
    } else {
        find_model(ds.drop_first(), name)
    }
}

/// Where a model's configuration came from.
#[derive(PartialEq, Eq, Structural, Debug, Clone, Copy)]
pub enum ConfigSource {
    /// The model's `config` object.
    Declared,
    /// The model's `config` object could not be read: defaults.
    MalformedConfig,
    /// The model has no `config` object: defaults.
    NoConfig,
    /// The catalog has no such model: defaults.
    NotFound,
    /// The catalog could not be had: defaults.
    CatalogUnavailable,
}

/// The catalog as the resolution sees it: `None` where it could not be had.
pub open spec fn catalog_view(c: Result<Vec<ModelDescriptor>, CatalogError>) -> Option<
    Seq<DescriptorView>,
> {
    match c {
        Ok(v) => Some(descriptors_view(v@)),
        Err(_) => None,
    }
}

/// Where the configuration of model `name` comes from.
pub open spec fn source_of(catalog: Option<Seq<DescriptorView>>, name: Seq<char>) -> ConfigSource {
    match catalog {
        None => ConfigSource::CatalogUnavailable,
        Some(ds) => match find_model(ds, name) {
            None => ConfigSource::NotFound,
            Some(d) => match d.config {
                None => ConfigSource::NoConfig,
                Some(None) => ConfigSource::MalformedConfig,
                Some(Some(_)) => ConfigSource::Declared,
            },
        },
    }
}

/// The configuration of model `name`: the declared one, else the defaults.
pub open spec fn config_for(catalog: Option<Seq<DescriptorView>>, name: Seq<char>) -> ConfigView {
    match catalog {
        Some(ds) => match find_model(ds, name) {
            Some(d) => match d.config {
                Some(Some(c)) => c,
                _ => default_config(),
            },
            None => default_config(),
        },
        None => default_config(),
    }
}

/// The message of a catalog error.
pub open spec fn error_text(e: CatalogError) -> Seq<char> {
    match e {
        CatalogError::Transport(m) => m@,
        CatalogError::Malformed => "the model listing is not a JSON array"@,
    }
}

/// The diagnostic that a resolution emits: one for every source but a
/// declared configuration.
pub open spec fn diagnostic_text(source: ConfigSource, name: Seq<char>, error: Seq<char>) -> Option<
    Seq<char>,
> {
    match source {
        ConfigSource::Declared => None,
        ConfigSource::MalformedConfig => Some(
            "Warning: Could not read the config of model "@ + name + "."@,
        ),
        ConfigSource::NoConfig => Some("Warning: Could not find prompt_format in model config."@),
        ConfigSource::NotFound => Some("Warning: Could not find model "@ + name + "."@),
        ConfigSource::CatalogUnavailable => Some("Error: "@ + error),
    }
}

pub open spec fn catalog_error_text(c: Result<Vec<ModelDescriptor>, CatalogError>) -> Seq<char> {
    match c {
        Err(e) => error_text(e),
        Ok(_) => Seq::empty(),
    }
}

pub open spec fn opt_text(t: Option<String>) -> Option<Seq<char>> {
    match t {
        Some(s) => Some(s@),
        None => None,
    }
}

/// A model's configuration, where it came from, and the diagnostic to emit.
pub struct Resolution {
    pub config: ModelConfig,
    pub source: ConfigSource,
    pub diagnostic: Option<String>,
}

impl CatalogError {
    /// The message of this error.
    pub fn message(&self) -> (r: String)
        ensures
            r@ == error_text(*self),
    {
        match self {
            CatalogError::Transport(m) => m.clone(),
            CatalogError::Malformed => String::from_str("the model listing is not a JSON array"),
        }
    }
}

/// The diagnostic for a source of configuration.
fn diagnostic_for(source: ConfigSource, name: &str, error: &String) -> (r: Option<String>)
    ensures
        opt_text(r) == diagnostic_text(source, name@, error@),
{
    match source {
        ConfigSource::Declared => None,
        ConfigSource::MalformedConfig => {
            let mut t = String::from_str("Warning: Could not read the config of model ");
            t.append(name);
            t.append(".");
            Some(t)
        },
        ConfigSource::NoConfig => Some(
            String::from_str("Warning: Could not find prompt_format in model config."),
        ),
        ConfigSource::NotFound => {
            let mut t = String::from_str("Warning: Could not find model ");
            t.append(name);
            t.append(".");
            Some(t)
        },
        ConfigSource::CatalogUnavailable => {
            let mut t = String::from_str("Error: ");
            t.append(error.as_str());
            Some(t)
        },
    }
}

/// The position of the first descriptor named `name`.
fn position_of(ds: &Vec<ModelDescriptor>, name: &str) -> (r: Option<usize>)
    ensures
        match r {
            Some(k) => k < ds@.len() && find_model(descriptors_view(ds@), name@) == Some(
                ds@[k as int]@,
            ),
            None => find_model(descriptors_view(ds@), name@) is None,
        },
{
    let ghost all = descriptors_view(ds@);
    let mut i: usize = 0;
    assert(all.skip(0) =~= all);
    while i < ds.len()
        invariant
            0 <= i <= ds@.len(),
            all == descriptors_view(ds@),
            find_model(all, name@) == find_model(all.skip(i as int), name@),
        decreases ds.len() - i,
    {
        proof {
            assert(all.skip(i as int).drop_first() =~= all.skip(i + 1));
            assert(all.skip(i as int)[0] == ds@[i as int]@);
        }
        if str_equal(ds[i].name.as_str(), name) {
            return Some(i);
        }
        i = i + 1;
    }
    None
}

/// Resolves the configuration of model `name` against a freshly fetched
/// catalog: the declared template and stop words where the catalog has the
/// model with a readable `config` object, else the defaults with one
/// diagnostic that says why.
pub fn resolve_config(catalog: Result<Vec<ModelDescriptor>, CatalogError>, name: &str) -> (r:
    Resolution)
    ensures
        r.source == source_of(catalog_view(catalog), name@),
        r.config@ == config_for(catalog_view(catalog), name@),
        opt_text(r.diagnostic) == diagnostic_text(r.source, name@, catalog_error_text(catalog)),
{
    let ghost cv = catalog_view(catalog);
    let ghost et = catalog_error_text(catalog);
    let (config, source, error) = match catalog {
        Err(e) => (ModelConfig::default_config(), ConfigSource::CatalogUnavailable, e.message()),
        Ok(ds) => match position_of(&ds, name) {
            None => (ModelConfig::default_config(), ConfigSource::NotFound, String::new()),
            Some(k) => {
                let mut ds = ds;
                let d = ds.remove(k);
                match d.config {
                    Some(DeclaredConfig::Usable(c)) => (c, ConfigSource::Declared, String::new()),
                    Some(DeclaredConfig::Malformed) => (
                        ModelConfig::default_config(),
                        ConfigSource::MalformedConfig,
                        String::new(),
                    ),
                    None => (ModelConfig::default_config(), ConfigSource::NoConfig, String::new()),
                }
            },
        },
    };
    assert(source == ConfigSource::CatalogUnavailable ==> error@ == et);
    let diagnostic = diagnostic_for(source, name, &error);
    Resolution { config, source, diagnostic }
}

proof fn lemma_find_absent(ds: Seq<DescriptorView>, name: Seq<char>)
    requires
        forall|i: int| 0 <= i < ds.len() ==> (#[trigger] ds[i]).name != name,
    ensures
        find_model(ds, name) is None,
    decreases ds.len(),
{
    if ds.len() > 0 {
        assert(ds[0].name != name);
        assert forall|i: int| 0 <= i < ds.drop_first().len() implies (
        #[trigger] ds.drop_first()[i]).name != name by {
            assert(ds.drop_first()[i] == ds[i + 1]);
        }
        lemma_find_absent(ds.drop_first(), name);
    }
}

/// A model that the catalog does not hold gets the bare placeholder as its
/// template and no stop words, and its resolution emits exactly one
/// diagnostic, a warning that names it.
pub proof fn law_unknown_model_gets_defaults(catalog: Seq<DescriptorView>, name: Seq<char>)
    requires
        forall|i: int| 0 <= i < catalog.len() ==> (#[trigger] catalog[i]).name != name,
    ensures
        source_of(Some(catalog), name) == ConfigSource::NotFound,
        config_for(Some(catalog), name) == default_config(),
        diagnostic_text(source_of(Some(catalog), name), name, Seq::empty()) == Some(
            "Warning: Could not find model "@ + name + "."@,
        ),
{
    lemma_find_absent(catalog, name);
}

/// Whether a descriptor is listed: a chat model, and featured where only
/// featured ones are asked for.
pub open spec fn is_listed(d: DescriptorView, featured_only: bool) -> bool {
    d.display_type == Some("chat"@) && (featured_only ==> d.is_featured)
}

/// The names of the listed descriptors, in catalog order.
pub open spec fn chat_names(ds: Seq<DescriptorView>, featured_only: bool) -> Seq<Seq<char>>
    decreases ds.len(),
{
    if ds.len() == 0 {
        Seq::empty()
    } else if is_listed(ds.last(), featured_only) {
        chat_names(ds.drop_last(), featured_only).push(ds.last().name)
    } else {
        chat_names(ds.drop_last(), featured_only)
    }
}

/// Texts in ascending order.
pub open spec fn ascending(s: Seq<Seq<char>>) -> bool {
    forall|i: int| 0 <= i < s.len() - 1 ==> chars_le(#[trigger] s[i], s[i + 1])
}

/// Whether a descriptor's category is chat.
fn is_chat(d: &ModelDescriptor) -> (r: bool)
    ensures
        r == (d@.display_type == Some("chat"@)),
{
    match &d.display_type {
        Some(t) => str_equal(t.as_str(), "chat"),
        None => false,
    }
}

/// The names of the chat models of the catalog (only the featured ones,
/// where `featured_only`), in ascending order.
pub fn list_chat_models(catalog: &Vec<ModelDescriptor>, featured_only: bool) -> (r: Vec<String>)
    ensures
        ascending(texts_view(r@)),
        texts_view(r@).to_multiset() == chat_names(descriptors_view(catalog@), featured_only).to_multiset(),
{
    broadcast use vstd::seq_lib::group_to_multiset_ensures;

    let ghost all = descriptors_view(catalog@);
    let mut out: Vec<String> = Vec::new();
    let mut i: usize = 0;
    assert(texts_view(out@) =~= Seq::<Seq<char>>::empty());
    while i < catalog.len()
        invariant
            0 <= i <= catalog@.len(),
            all == descriptors_view(catalog@),
            ascending(texts_view(out@)),
            texts_view(out@).to_multiset() == chat_names(all.subrange(0, i as int), featured_only).to_multiset(),
        decreases catalog.len() - i,
    {
        proof {
            assert(all.subrange(0, i + 1).drop_last() =~= all.subrange(0, i as int));
            assert(all.subrange(0, i + 1).last() == catalog@[i as int]@);
        }
        let ghost prev = chat_names(all.subrange(0, i as int), featured_only);
        let d = &catalog[i];
        if is_chat(d) && (!featured_only || d.is_featured) {
            let ghost before = texts_view(out@);
            let mut j: usize = 0;
            while j < out.len() && text_le(out[j].as_str(), d.name.as_str())
                invariant
                    0 <= j <= out@.len(),
                    before == texts_view(out@),
                    forall|k: int| 0 <= k < j ==> chars_le(#[trigger] before[k], d.name@),
                decreases out.len() - j,
            {
                j = j + 1;
            }
            proof {
                if j < out@.len() {
                    lemma_chars_le_total(before[j as int], d.name@);
                }
            }
            out.insert(j, d.name.clone());
            proof {
                let after = texts_view(out@);
                assert(after =~= before.insert(j as int, d.name@));
                vstd::seq_lib::to_multiset_insert(before, j as int, d.name@);
                vstd::seq_lib::to_multiset_build(prev, d.name@);
                assert(chat_names(all.subrange(0, i + 1), featured_only) == prev.push(d.name@));
                assert forall|k: int| 0 <= k < after.len() - 1 implies chars_le(
                    #[trigger] after[k],
                    after[k + 1],
                ) by {
                    if k < j - 1 {
                        assert(after[k] == before[k] && after[k + 1] == before[k + 1]);
                    } else if k == j - 1 {
                    } else if k == j {
                    } else {
                        assert(after[k] == before[k - 1] && after[k + 1] == before[k]);
                    }
                }
            }
        }
        i = i + 1;
    }
    assert(all.subrange(0, i as int) =~= all);
    out
}

} // verus!
