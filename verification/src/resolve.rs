//! Resolution of the host's untyped configuration bag into a [`Configuration`].

use crate::configuration::Configuration;
use crate::text::decimal;
use dprint_core::configuration::{
    get_nullable_value, get_unknown_property_diagnostics, ConfigKeyMap,
};
use vstd::prelude::*;

verus! {

broadcast use vstd::seq_lib::group_seq_properties;

/// `dprint_core::configuration::ConfigKeyValue`, a value of the host's configuration
/// bag: a string, a 32-bit number or a boolean. Nothing here looks inside one.
#[verifier::external_type_specification]
#[verifier::external_body]
pub struct ExConfigKeyValue(dprint_core::configuration::ConfigKeyValue);

/// What a configuration bag holds: under each key the text of its value, which is
/// the string itself, the decimal numeral of a number, and `true` or `false` for a
/// boolean. `dprint_core` parses every value from this text.
pub uninterp spec fn entries(config: ConfigKeyMap) -> Map<Seq<char>, Seq<char>>;

/// What `dprint_core::configuration::get_nullable_value::<u8>` makes of a value's
/// text, by `str::parse`: the number, or the text of the parse error.
pub uninterp spec fn parsed_u8(text: Seq<char>) -> Result<u8, Seq<char>>;

/// What `dprint_core::configuration::get_nullable_value::<bool>` makes of a value's
/// text, by `str::parse`: the boolean, or the text of the parse error.
pub uninterp spec fn parsed_bool(text: Seq<char>) -> Result<bool, Seq<char>>;

/// The defaults that the host applies to all of its plugins, as far as they matter here.
#[derive(Debug, Clone, Copy, PartialEq, Eq, Structural)]
pub struct GlobalDefaults {
    /// Whether the host indents with tabs, if it says.
    pub use_tabs: Option<bool>,
    /// The host's indent width, if it has one.
    pub indent_width: Option<u8>,
}

/// A problem found in the configuration.
#[derive(Debug, Clone, PartialEq, Eq)]
pub struct Diagnostic {
    /// The property that the problem was found on.
    pub property_name: String,
    /// The message for the user.
    pub message: String,
}

/// A [`Diagnostic`] as specifications see it.
pub struct DiagnosticText {
    pub property_name: Seq<char>,
    pub message: Seq<char>,
}

impl View for Diagnostic {
    type V = DiagnosticText;

    open spec fn view(&self) -> DiagnosticText {
        DiagnosticText { property_name: self.property_name@, message: self.message@ }
    }
}

impl DeepView for Diagnostic {
    type V = DiagnosticText;

    open spec fn deep_view(&self) -> DiagnosticText {
        self@
    }
}

/// A resolved configuration and the problems found on the way.
#[derive(Debug, Clone, PartialEq, Eq)]
pub struct ResolveResult {
    /// The configuration to format with.
    pub config: Configuration,
    /// The problems, in the order in which they were found.
    pub diagnostics: Vec<Diagnostic>,
}

/// The message of a value that could not be parsed; `detail` is the parse error's text.
pub open spec fn parse_failure_message(key: Seq<char>, detail: Seq<char>) -> Seq<char> {
    "Error parsing configuration value for '"@ + key + "'. Message: "@ + detail
}

/// The message of a key that is not recognized.
pub open spec fn unknown_property_message(key: Seq<char>) -> Seq<char> {
    "Unknown property in configuration: "@ + key
}

/// The keys that a configuration bag may hold.
pub open spec fn recognized_keys() -> Set<Seq<char>> {
    set![
        "indentWidth"@,
        "binaryNextLine"@,
        "switchCaseIndent"@,
        "spaceRedirects"@,
        "keepPadding"@,
        "functionNextLine"@,
    ]
}

/// The value that a parse gave, where it gave one.
pub open spec fn parsed_value<T>(parsed: Result<T, Seq<char>>) -> Option<T> {
    match parsed {
        Ok(value) => Some(value),
        Err(_) => None,
    }
}

/// The diagnostic for the value under `key` where the parse failed, and nothing
/// where it gave a value.
pub open spec fn parse_failure<T>(key: Seq<char>, parsed: Result<T, Seq<char>>) -> Seq<
    DiagnosticText,
> {
    match parsed {
        Ok(_) => seq![],
        Err(detail) => seq![
            DiagnosticText { property_name: key, message: parse_failure_message(key, detail) },
        ],
    }
}

/// The number under `key`, where the bag holds the key and its value parses.
pub open spec fn u8_value(bag: Map<Seq<char>, Seq<char>>, key: Seq<char>) -> Option<u8> {
    if bag.dom().contains(key) {
        parsed_value(parsed_u8(bag[key]))
    } else {
        None
    }
}

/// The boolean under `key`, where the bag holds the key and its value parses.
pub open spec fn bool_value(bag: Map<Seq<char>, Seq<char>>, key: Seq<char>) -> Option<bool> {
    if bag.dom().contains(key) {
        parsed_value(parsed_bool(bag[key]))
    } else {
        None
    }
}

/// The diagnostic for the number under `key`, where the bag holds the key and its
/// value does not parse.
pub open spec fn u8_failure(bag: Map<Seq<char>, Seq<char>>, key: Seq<char>) -> Seq<
    DiagnosticText,
> {
    if bag.dom().contains(key) {
        parse_failure(key, parsed_u8(bag[key]))
    } else {
        seq![]
    }
}

/// The diagnostic for the boolean under `key`, where the bag holds the key and its
/// value does not parse.
pub open spec fn bool_failure(bag: Map<Seq<char>, Seq<char>>, key: Seq<char>) -> Seq<
    DiagnosticText,
> {
    if bag.dom().contains(key) {
        parse_failure(key, parsed_bool(bag[key]))
    } else {
        seq![]
    }
}

/// Whether `value` is the number that the bag holds under `key`, as far as that is
/// written as a plain decimal numeral.
pub open spec fn reads_number(bag: Map<Seq<char>, Seq<char>>, key: Seq<char>, value: u8) -> bool {
    bag.dom().contains(key) ==> forall|n: u8| bag[key] == decimal(n as nat) ==> value == n
}

/// Whether `value` is the boolean that the bag holds under `key`, as far as that is
/// `true` or `false`.
pub open spec fn reads_boolean(bag: Map<Seq<char>, Seq<char>>, key: Seq<char>, value: bool)
    -> bool {
    bag.dom().contains(key) ==> (bag[key] == "true"@ ==> value) && (bag[key] == "false"@
        ==> !value)
}

/// `value` where there is one, and `fallback` otherwise.
pub open spec fn value_or<T>(value: Option<T>, fallback: T) -> T {
    match value {
        Some(v) => v,
        None => fallback,
    }
}

impl GlobalDefaults {
    /// No defaults at all.
    pub open spec fn none() -> GlobalDefaults {
        GlobalDefaults { use_tabs: None, indent_width: None }
    }

    /// The indent width that the host's defaults ask for: its own, where the host
    /// says that it does not indent with tabs, and zero otherwise.
    pub open spec fn seed_indent_width(self) -> u8 {
        if self.use_tabs == Some(false) && self.indent_width is Some {
            self.indent_width->0
        } else {
            0
        }
    }
}

/// The configuration that a bag and the host's defaults resolve to: each option is
/// what the bag gives for its key, where that parses, and its default otherwise.
pub open spec fn resolved(bag: Map<Seq<char>, Seq<char>>, globals: GlobalDefaults)
    -> Configuration {
    Configuration {
        indent_width: value_or(u8_value(bag, "indentWidth"@), globals.seed_indent_width()),
        binary_next_line: value_or(bool_value(bag, "binaryNextLine"@), false),
        switch_case_indent: value_or(bool_value(bag, "switchCaseIndent"@), false),
        space_redirects: value_or(bool_value(bag, "spaceRedirects"@), false),
        keep_padding: value_or(bool_value(bag, "keepPadding"@), false),
        function_next_line: value_or(bool_value(bag, "functionNextLine"@), false),
    }
}

/// Whether `config` holds the plain values of the bag: the number that stands in
/// decimal under `indentWidth`, and what stands as `true` or `false` under the key
/// of each other option.
pub open spec fn holds_plain_values(bag: Map<Seq<char>, Seq<char>>, config: Configuration)
    -> bool {
    &&& reads_number(bag, "indentWidth"@, config.indent_width)
    &&& reads_boolean(bag, "binaryNextLine"@, config.binary_next_line)
    &&& reads_boolean(bag, "switchCaseIndent"@, config.switch_case_indent)
    &&& reads_boolean(bag, "spaceRedirects"@, config.space_redirects)
    &&& reads_boolean(bag, "keepPadding"@, config.keep_padding)
    &&& reads_boolean(bag, "functionNextLine"@, config.function_next_line)
}

/// The diagnostics for the values that do not parse, in the order of the options.
pub open spec fn parse_failures(bag: Map<Seq<char>, Seq<char>>) -> Seq<DiagnosticText> {
    u8_failure(bag, "indentWidth"@) + bool_failure(bag, "binaryNextLine"@) + bool_failure(
        bag,
        "switchCaseIndent"@,
    ) + bool_failure(bag, "spaceRedirects"@) + bool_failure(bag, "keepPadding"@) + bool_failure(
        bag,
        "functionNextLine"@,
    )
}

/// The keys of the bag that are not recognized.
pub open spec fn unknown_keys(bag: Map<Seq<char>, Seq<char>>) -> Set<Seq<char>> {
    bag.dom().difference(recognized_keys())
}

/// Whether `reports` holds one diagnostic for each key of `keys` and nothing else,
/// in whatever order.
pub open spec fn reports_unknown(reports: Seq<DiagnosticText>, keys: Set<Seq<char>>) -> bool {
    &&& forall|i: int|
        0 <= i < reports.len() ==> keys.contains(#[trigger] reports[i].property_name)
            && reports[i].message == unknown_property_message(reports[i].property_name)
    &&& forall|i: int, j: int|
        0 <= i < j < reports.len() ==> reports[i].property_name != reports[j].property_name
    &&& forall|key: Seq<char>| #[trigger]
        keys.contains(key) ==> exists|i: int|
            0 <= i < reports.len() && reports[i].property_name == key
}

/// Whether `config` and `diagnostics` are what the bag and the host's defaults
/// resolve to: the diagnostics start with the parse failures, and one for each
/// unknown key follows.
pub open spec fn is_resolution(
    bag: Map<Seq<char>, Seq<char>>,
    globals: GlobalDefaults,
    config: Configuration,
    diagnostics: Seq<DiagnosticText>,
) -> bool {
    &&& config == resolved(bag, globals)
    &&& parse_failures(bag).is_prefix_of(diagnostics)
    &&& reports_unknown(diagnostics.skip(parse_failures(bag).len() as int), unknown_keys(bag))
}

/// Takes the value under `key` out of the bag and parses it as a number, by
/// `dprint_core::configuration::get_nullable_value`. The key leaves the bag. The
/// number comes back where the key was there and its value parsed; where it was there
/// and did not parse, the one diagnostic that says so comes back instead. A number
/// up to 255 that is written as a plain decimal numeral parses to itself.
#[verifier::external_body]
fn take_u8(config: &mut ConfigKeyMap, key: &'static str) -> (taken: (Option<u8>, Vec<Diagnostic>))
    ensures
        entries(*final(config)) == entries(*old(config)).remove(key@),
        !entries(*old(config)).dom().contains(key@) ==> taken.0 is None
            && taken.1.deep_view() == Seq::<DiagnosticText>::empty(),
        entries(*old(config)).dom().contains(key@) ==> taken.0 == parsed_value(
            parsed_u8(entries(*old(config))[key@]),
        ) && taken.1.deep_view() == parse_failure(key@, parsed_u8(entries(*old(config))[key@])),
        entries(*old(config)).dom().contains(key@) ==> forall|n: u8|
            entries(*old(config))[key@] == decimal(n as nat) ==> taken.0 == Some(n),
{
    let mut found = Vec::new();
    let value = get_nullable_value::<u8>(config, key, &mut found);
    let problems = found.into_iter().map(
        |d| Diagnostic { property_name: d.property_name, message: d.message },
    ).collect();
    (value, problems)
}

/// Takes the value under `key` out of the bag and parses it as a boolean, by
/// `dprint_core::configuration::get_nullable_value`. The key leaves the bag. The
/// boolean comes back where the key was there and its value parsed; where it was there
/// and did not parse, the one diagnostic that says so comes back instead. The texts
/// `true` and `false` parse to what they say.
#[verifier::external_body]
fn take_bool(config: &mut ConfigKeyMap, key: &'static str) -> (taken: (
    Option<bool>,
    Vec<Diagnostic>,
))
    ensures
        entries(*final(config)) == entries(*old(config)).remove(key@),
        !entries(*old(config)).dom().contains(key@) ==> taken.0 is None
            && taken.1.deep_view() == Seq::<DiagnosticText>::empty(),
        entries(*old(config)).dom().contains(key@) ==> taken.0 == parsed_value(
            parsed_bool(entries(*old(config))[key@]),
        ) && taken.1.deep_view() == parse_failure(
            key@,
            parsed_bool(entries(*old(config))[key@]),
        ),
        entries(*old(config)).dom().contains(key@) && entries(*old(config))[key@] == "true"@
            ==> taken.0 == Some(true),
        entries(*old(config)).dom().contains(key@) && entries(*old(config))[key@] == "false"@
            ==> taken.0 == Some(false),
{
    let mut found = Vec::new();
    let value = get_nullable_value::<bool>(config, key, &mut found);
    let problems = found.into_iter().map(
        |d| Diagnostic { property_name: d.property_name, message: d.message },
    ).collect();
    (value, problems)
}

/// One diagnostic for each key that is left in the bag, by
/// `dprint_core::configuration::get_unknown_property_diagnostics`, in the order in
/// which the bag hands out its keys, which is not fixed.
#[verifier::external_body]
fn unknown_properties(config: ConfigKeyMap) -> (reports: Vec<Diagnostic>)
    ensures
        reports_unknown(reports.deep_view(), entries(config).dom()),
{
    get_unknown_property_diagnostics(config).into_iter().map(
        |d| Diagnostic { property_name: d.property_name, message: d.message },
    ).collect()
}

/// Stores `value` in `store` where there is one, and leaves `store` as it is otherwise.
pub fn assign<T>(store: &mut T, value: Option<T>)
    ensures
        *final(store) == value_or(value, *old(store)),
{
    if let Some(v) = value {
        *store = v;
    }
}

/// Moves the diagnostics of `more` to the end of `diagnostics`.
fn append_diagnostics(diagnostics: &mut Vec<Diagnostic>, more: Vec<Diagnostic>)
    ensures
        final(diagnostics).deep_view() == old(diagnostics).deep_view() + more.deep_view(),
{
    let mut rest = more;
    diagnostics.append(&mut rest);
    assert(diagnostics.deep_view() =~= old(diagnostics).deep_view() + more.deep_view());
}

/// A configuration bag that is being read, and the diagnostics found so far.
struct ConfigurationBuilder {
    config: ConfigKeyMap,
    diagnostics: Vec<Diagnostic>,
}

impl ConfigurationBuilder {
    fn new(config: ConfigKeyMap) -> (builder: Self)
        ensures
            builder.config == config,
            builder.diagnostics.deep_view() == Seq::<DiagnosticText>::empty(),
    {
        let builder = Self { config, diagnostics: Vec::new() };
        assert(builder.diagnostics.deep_view() =~= Seq::<DiagnosticText>::empty());
        builder
    }

    /// Ends the reading: every key that is still in the bag is reported as unknown.
    fn extend(self) -> (diagnostics: Vec<Diagnostic>)
        ensures
            self.diagnostics.deep_view().is_prefix_of(diagnostics.deep_view()),
            reports_unknown(
                diagnostics.deep_view().skip(self.diagnostics.deep_view().len() as int),
                entries(self.config).dom(),
            ),
    {
        let mut data = self;
        let ghost found = data.diagnostics.deep_view();
        let reports = unknown_properties(data.config);
        append_diagnostics(&mut data.diagnostics, reports);
        assert(data.diagnostics.deep_view().skip(found.len() as int) =~= reports.deep_view());
        data.diagnostics
    }

    /// Reads the number under `key` into `store`, and takes the key out of the bag.
    fn get_nullable_u8(&mut self, store: &mut u8, key: &'static str)
        ensures
            entries(final(self).config) == entries(old(self).config).remove(key@),
            *final(store) == value_or(u8_value(entries(old(self).config), key@), *old(store)),
            final(self).diagnostics.deep_view() == old(self).diagnostics.deep_view() + u8_failure(
                entries(old(self).config),
                key@,
            ),
            reads_number(entries(old(self).config), key@, *final(store)),
    {
        let (value, problems) = take_u8(&mut self.config, key);
        append_diagnostics(&mut self.diagnostics, problems);
        assign(store, value);
    }

    /// Reads the boolean under `key` into `store`, and takes the key out of the bag.
    fn get_nullable_bool(&mut self, store: &mut bool, key: &'static str)
        ensures
            entries(final(self).config) == entries(old(self).config).remove(key@),
            *final(store) == value_or(bool_value(entries(old(self).config), key@), *old(store)),
            final(self).diagnostics.deep_view() == old(self).diagnostics.deep_view()
                + bool_failure(entries(old(self).config), key@),
            reads_boolean(entries(old(self).config), key@, *final(store)),
    {
        let (value, problems) = take_bool(&mut self.config, key);
        append_diagnostics(&mut self.diagnostics, problems);
        assign(store, value);
    }
}

impl Default for GlobalDefaults {
    fn default() -> (globals: Self)
        ensures
            globals == GlobalDefaults::none(),
    {
        GlobalDefaults { use_tabs: None, indent_width: None }
    }
}

impl GlobalDefaults {
    /// The configuration before the bag is read: every option at its default, but for
    /// the indent width that these defaults ask for.
    pub fn seed(&self) -> (config: Configuration)
        ensures
            config == (Configuration {
                indent_width: self.seed_indent_width(),
                ..Configuration::unset()
            }),
    {
        let mut config = Configuration::default();
        match (self.use_tabs, self.indent_width) {
            (Some(false), Some(value)) => {
                config.indent_width = value;
            },
            _ => {},
        }
        config
    }
}

/// No two of the recognized keys are the same.
proof fn lemma_keys_differ()
    ensures
        "indentWidth"@ != "binaryNextLine"@,
        "indentWidth"@ != "switchCaseIndent"@,
        "indentWidth"@ != "spaceRedirects"@,
        "indentWidth"@ != "keepPadding"@,
        "indentWidth"@ != "functionNextLine"@,
        "binaryNextLine"@ != "switchCaseIndent"@,
        "binaryNextLine"@ != "spaceRedirects"@,
        "binaryNextLine"@ != "keepPadding"@,
        "binaryNextLine"@ != "functionNextLine"@,
        "switchCaseIndent"@ != "spaceRedirects"@,
        "switchCaseIndent"@ != "keepPadding"@,
        "switchCaseIndent"@ != "functionNextLine"@,
        "spaceRedirects"@ != "keepPadding"@,
        "spaceRedirects"@ != "functionNextLine"@,
        "keepPadding"@ != "functionNextLine"@,
{
    reveal_strlit("indentWidth");
    reveal_strlit("binaryNextLine");
    reveal_strlit("switchCaseIndent");
    reveal_strlit("spaceRedirects");
    reveal_strlit("keepPadding");
    reveal_strlit("functionNextLine");
    assert("indentWidth"@.len() == 11 && "keepPadding"@.len() == 11);
    assert("binaryNextLine"@.len() == 14 && "spaceRedirects"@.len() == 14);
    assert("switchCaseIndent"@.len() == 16 && "functionNextLine"@.len() == 16);
    assert("indentWidth"@[0] != "keepPadding"@[0]);
    assert("binaryNextLine"@[0] != "spaceRedirects"@[0]);
    assert("switchCaseIndent"@[0] != "functionNextLine"@[0]);
}

/// With no key in the bag and no defaults from the host, resolution gives the
/// configuration in which nothing is set, and no diagnostic.
pub proof fn lemma_empty_bag_resolves_to_default(
    bag: Map<Seq<char>, Seq<char>>,
    config: Configuration,
    diagnostics: Seq<DiagnosticText>,
)
    requires
        bag == Map::<Seq<char>, Seq<char>>::empty(),
        is_resolution(bag, GlobalDefaults::none(), config, diagnostics),
    ensures
        config == Configuration::unset(),
        diagnostics.len() == 0,
{
    assert(parse_failures(bag) =~= Seq::<DiagnosticText>::empty());
    let reports = diagnostics.skip(0);
    if reports.len() > 0 {
        assert(unknown_keys(bag).contains(reports[0].property_name));
    }
}

/// With one key in the bag, which is not recognized, resolution gives exactly one
/// diagnostic, which names that key, and leaves every option as the host's defaults
/// seed it: unset, where they ask for no indent width.
pub proof fn lemma_single_unknown_key(
    bag: Map<Seq<char>, Seq<char>>,
    key: Seq<char>,
    globals: GlobalDefaults,
    config: Configuration,
    diagnostics: Seq<DiagnosticText>,
)
    requires
        bag.dom() == set![key],
        !recognized_keys().contains(key),
        globals.seed_indent_width() == 0,
        is_resolution(bag, globals, config, diagnostics),
    ensures
        config == Configuration::unset(),
        diagnostics.len() == 1,
        diagnostics[0].property_name == key,
        diagnostics[0].message == unknown_property_message(key),
{
    assert(parse_failures(bag) =~= Seq::<DiagnosticText>::empty());
    let reports = diagnostics.skip(0);
    assert(unknown_keys(bag).contains(key));
    let i = choose|i: int| 0 <= i < reports.len() && reports[i].property_name == key;
    if reports.len() > 1 {
        assert(unknown_keys(bag).contains(reports[0].property_name));
        assert(unknown_keys(bag).contains(reports[1].property_name));
    }
    assert(unknown_keys(bag).contains(reports[0].property_name));
}

/// Resolution leaves one diagnostic for each value that does not parse and one for
/// each key that is not recognized, and no other.
pub proof fn lemma_one_diagnostic_for_each_problem(
    bag: Map<Seq<char>, Seq<char>>,
    globals: GlobalDefaults,
    config: Configuration,
    diagnostics: Seq<DiagnosticText>,
)
    requires
        is_resolution(bag, globals, config, diagnostics),
    ensures
        unknown_keys(bag).finite(),
        diagnostics.len() == parse_failures(bag).len() + unknown_keys(bag).len(),
{
    let reports = diagnostics.skip(parse_failures(bag).len() as int);
    let names = reports.map_values(|d: DiagnosticText| d.property_name);
    assert(names.no_duplicates());
    assert(names.to_set() =~= unknown_keys(bag)) by {
        assert forall|key: Seq<char>| unknown_keys(bag).contains(key) implies names.to_set().contains(
            key,
        ) by {
            let i = choose|i: int| 0 <= i < reports.len() && reports[i].property_name == key;
            assert(names[i] == key);
        }
        assert forall|key: Seq<char>| names.to_set().contains(key) implies unknown_keys(
            bag,
        ).contains(key) by {
            let i = choose|i: int| 0 <= i < names.len() && names[i] == key;
            assert(unknown_keys(bag).contains(reports[i].property_name));
        }
    }
    names.unique_seq_to_set();
}

/// Resolves the host's configuration bag and its defaults for all plugins into a
/// configuration. Every input resolves: a value that does not parse and a key that
/// is not recognized each leave a diagnostic, and the option keeps its default.
pub fn resolve_config(config: ConfigKeyMap, global_config: &GlobalDefaults) -> (result:
    ResolveResult)
    ensures
        is_resolution(
            entries(config),
            *global_config,
            result.config,
            result.diagnostics.deep_view(),
        ),
        holds_plain_values(entries(config), result.config),
        result.diagnostics@.len() == parse_failures(entries(config)).len() + unknown_keys(
            entries(config),
        ).len(),
        entries(config) == Map::<Seq<char>, Seq<char>>::empty() && *global_config
            == GlobalDefaults::none() ==> result.config == Configuration::unset()
            && result.diagnostics@.len() == 0,
        forall|key: Seq<char>|
            entries(config).dom() == set![key] && !recognized_keys().contains(key)
                && global_config.seed_indent_width() == 0 ==> result.config
                == Configuration::unset() && result.diagnostics@.len() == 1
                && result.diagnostics@[0].property_name@ == key,
{
    let ghost bag = entries(config);
    let mut builder = ConfigurationBuilder::new(config);
    let mut config = global_config.seed();

    builder.get_nullable_u8(&mut config.indent_width, "indentWidth");
    builder.get_nullable_bool(&mut config.binary_next_line, "binaryNextLine");
    builder.get_nullable_bool(&mut config.switch_case_indent, "switchCaseIndent");
    builder.get_nullable_bool(&mut config.space_redirects, "spaceRedirects");
    builder.get_nullable_bool(&mut config.keep_padding, "keepPadding");
    builder.get_nullable_bool(&mut config.function_next_line, "functionNextLine");

    proof {
        lemma_keys_differ();
        assert(config == resolved(bag, *global_config));
        assert(holds_plain_values(bag, config));
        assert(builder.diagnostics.deep_view() =~= parse_failures(bag));
        assert(entries(builder.config).dom() =~= unknown_keys(bag));
    }
    let diagnostics = builder.extend();
    proof {
        let found = diagnostics.deep_view();
        assert(is_resolution(bag, *global_config, config, found));
        lemma_one_diagnostic_for_each_problem(bag, *global_config, config, found);
        if bag == Map::<Seq<char>, Seq<char>>::empty() && *global_config
            == GlobalDefaults::none() {
            lemma_empty_bag_resolves_to_default(bag, config, found);
        }
        assert forall|key: Seq<char>|
            bag.dom() == set![key] && !recognized_keys().contains(key)
                && global_config.seed_indent_width() == 0 implies config
            == Configuration::unset() && diagnostics@.len() == 1
            && diagnostics@[0].property_name@ == key by {
            lemma_single_unknown_key(bag, key, *global_config, config, found);
        }
    }
    ResolveResult { config, diagnostics }
}

} // verus!
