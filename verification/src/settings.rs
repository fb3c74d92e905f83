//! How a Zenoh session is configured.
//!
//! A configuration is Zenoh's default one with a list of settings put into it,
//! each of which is a key and a value in JSON5.

use vstd::prelude::*;

use crate::text::{append_numeral, quote};

verus! {

/// The namespace of a session for which none is given.
pub const DEFAULT_NAMESPACE: &'static str = "exo";

/// The storage that keeps what is published below `storage/mem1`, in JSON5.
pub const STORAGE_JSON: &'static str = r#"{
            key_expr: "storage/mem1/**",
            strip_prefix: "storage/mem1",
            volume: "memory",
            replication: {
                interval: 2,
            }
        }"#;

/// The configuration of a Zenoh session.
#[verifier::external_type_specification]
#[verifier::external_body]
pub struct ExConfig(zenoh::Config);

/// What a configuration holds: the value under each of its keys, as JSON text.
pub uninterp spec fn config_tree(config: zenoh::Config) -> Map<Seq<char>, Seq<char>>;

/// Whether a default configuration may hold this. On one machine it always holds
/// the same; the number of threads in it differs between machines.
pub uninterp spec fn is_default_tree(tree: Map<Seq<char>, Seq<char>>) -> bool;

/// Whether nothing but the configuration itself has a say in what is put into it:
/// no validator has been attached to its table of plugins.
pub uninterp spec fn has_no_validator(config: zenoh::Config) -> bool;

/// What a configuration that held `tree` and has no validator holds after `value`
/// has been put under `key`; none if that is refused.
pub uninterp spec fn tree_with(
    tree: Map<Seq<char>, Seq<char>>,
    key: Seq<char>,
    value: Seq<char>,
) -> Option<Map<Seq<char>, Seq<char>>>;

/// Whether this may be what Zenoh says when it refuses to put `value` under `key`
/// where `tree` is held. What it says holds a path of the machine that it was built
/// on.
pub uninterp spec fn is_refusal(
    tree: Map<Seq<char>, Seq<char>>,
    key: Seq<char>,
    value: Seq<char>,
    message: Seq<char>,
) -> bool;

/// Whether `key` has nothing under it or a table, a JSON object.
pub open spec fn may_be_table(tree: Map<Seq<char>, Seq<char>>, key: Seq<char>) -> bool {
    tree.contains_key(key) ==> tree[key].len() > 0 && tree[key][0] == '{'
}

/// Whether there is a table of plugins, in which the storage manager and its
/// storages have a table too, or nothing yet.
pub open spec fn has_plugin_table(tree: Map<Seq<char>, Seq<char>>) -> bool {
    &&& tree.contains_key("plugins"@)
    &&& may_be_table(tree, "plugins"@)
    &&& may_be_table(tree, "plugins/storage_manager"@)
    &&& may_be_table(tree, "plugins/storage_manager/storages"@)
}

/// Whether the value stands under the key.
pub open spec fn stands(tree: Map<Seq<char>, Seq<char>>, pair: (Seq<char>, Seq<char>)) -> bool {
    tree.contains_key(pair.0) && tree[pair.0] == pair.1
}

/// The text can stand between double quotes as it is, in JSON5 as in JSON: there
/// are no control characters, no quotes, no backslashes and no separators of
/// lines or paragraphs in it.
pub open spec fn is_clean(s: Seq<char>) -> bool {
    forall|i: int|
        0 <= i < s.len() ==> {
            &&& #[trigger] s[i] as int >= 0x20
            &&& s[i] != '"'
            &&& s[i] != '\\'
            &&& s[i] as int != 0x2028
            &&& s[i] as int != 0x2029
        }
}

/// The text names a key without wildcards: it is made of parts with slashes
/// between them, no part is empty, and `*`, `$`, `#` and `?` do not occur.
pub open spec fn is_key_expr(s: Seq<char>) -> bool {
    &&& s.len() > 0
    &&& s[0] != '/'
    &&& s.last() != '/'
    &&& forall|i: int| 0 < i < s.len() ==> !(s[i - 1] == '/' && #[trigger] s[i] == '/')
    &&& forall|i: int|
        0 <= i < s.len() ==> {
            &&& #[trigger] s[i] != '*'
            &&& s[i] != '$'
            &&& s[i] != '#'
            &&& s[i] != '?'
        }
}

/// The key and the value of the setting of the storage.
pub open spec fn storage_pair() -> (Seq<char>, Seq<char>) {
    ("plugins/storage_manager/storages/mem1"@, STORAGE_JSON@)
}

/// Whether the storage stands in the tree, part by part.
pub open spec fn holds_storage(tree: Map<Seq<char>, Seq<char>>) -> bool {
    &&& stands(
        tree,
        ("plugins/storage_manager/storages/mem1/key_expr"@, "\"storage/mem1/**\""@),
    )
    &&& stands(
        tree,
        ("plugins/storage_manager/storages/mem1/strip_prefix"@, "\"storage/mem1\""@),
    )
    &&& stands(tree, ("plugins/storage_manager/storages/mem1/volume"@, "\"memory\""@))
    &&& stands(tree, ("plugins/storage_manager/storages/mem1/replication/interval"@, "2"@))
}

/// Whether the value is written as Zenoh writes it: a flag, a number, an empty
/// list or a text that needs no escapes.
pub open spec fn is_canonical(value: Seq<char>) -> bool {
    ||| value == "true"@
    ||| value == "9216"@
    ||| value == "[]"@
    ||| exists|word: Seq<char>| is_clean(word) && value == #[trigger] crate::text::quoted(word)
}

/// Whether a setting of a session or a scout is one that Zenoh accepts: as an id
/// anything but zero, as a namespace any text that needs no escapes and names a
/// key without wildcards, as the name of an interface any text that needs no
/// escapes, and everything else.
pub open spec fn is_accepted(pair: (Seq<char>, Seq<char>)) -> bool {
    &&& pair != ("id"@, crate::text::quoted("0"@))
    &&& pair.0 == "namespace"@ ==> exists|word: Seq<char>|
        is_clean(word) && is_key_expr(word) && pair.1 == #[trigger] crate::text::quoted(word)
    &&& pair.0 == "scouting/multicast/interface"@ ==> exists|word: Seq<char>|
        is_clean(word) && pair.1 == #[trigger] crate::text::quoted(word)
}

/// Whether a setting of a session is one that Zenoh refuses: the id zero, or as a
/// namespace a text that needs no escapes but names no key without wildcards.
pub open spec fn is_refused(pair: (Seq<char>, Seq<char>)) -> bool {
    ||| pair == ("id"@, crate::text::quoted("0"@))
    ||| pair.0 == "namespace"@ && exists|word: Seq<char>|
        is_clean(word) && !is_key_expr(word) && pair.1 == #[trigger] crate::text::quoted(word)
}

/// Whether the tree holds what the setting says: the value stands under the key,
/// if Zenoh would write it so too, and the storage stands part by part.
pub open spec fn takes_effect(
    tree: Map<Seq<char>, Seq<char>>,
    pair: (Seq<char>, Seq<char>),
) -> bool {
    &&& is_canonical(pair.1) ==> stands(tree, pair)
    &&& pair == storage_pair() ==> holds_storage(tree)
}

/// Whether `after` holds what `before` does, with the value put under the key: the
/// setting takes effect, and those under other keys have the effect they had.
pub open spec fn puts(
    before: Map<Seq<char>, Seq<char>>,
    after: Map<Seq<char>, Seq<char>>,
    key: Seq<char>,
    value: Seq<char>,
) -> bool {
    &&& takes_effect(after, (key, value))
    &&& forall|other: (Seq<char>, Seq<char>)| #[trigger]
        is_known(other) && other.0 != key ==> (takes_effect(after, other) <==> takes_effect(
            before,
            other,
        ))
}

/// `zenoh::Config::default`: a default configuration. There is a table of
/// plugins in it, which is empty and has no validator. What else it holds is not
/// said, as it depends on the machine.
#[verifier::external_body]
fn default_config() -> (config: zenoh::Config)
    ensures
        is_default_tree(config_tree(config)),
        has_plugin_table(config_tree(config)),
        has_no_validator(config),
{
    zenoh::Config::default()
}

/// `zenoh::Config::insert_json5` on a configuration without a validator: what it
/// holds afterwards, and whether the value is accepted, depends on nothing but
/// what it held before, the key and the value. An accepted value takes effect,
/// and the other settings are left as they were; a validator does not come in.
/// What is accepted is said for all settings but those whose text needs escapes.
/// The error is what Zenoh says of this value; its words are not said, nor what a
/// configuration holds that has refused a value.
///
/// Zenoh panics on a setting of a plugin where there is no table of plugins, and
/// its parser recurses as deep as a value is nested. Both are ruled out: there is
/// a table, and only the settings of sessions and scouts are put in, which leave
/// the table a table.
#[verifier::external_body]
fn insert_json5(config: &mut zenoh::Config, key: &str, value: &str) -> (r: Result<(), String>)
    requires
        has_no_validator(*old(config)),
        has_plugin_table(config_tree(*old(config))),
        is_known((key@, value@)),
    ensures
        r is Ok ==> tree_with(config_tree(*old(config)), key@, value@) == Some(
            config_tree(*final(config)),
        ),
        r is Err ==> tree_with(config_tree(*old(config)), key@, value@) is None,
        r matches Err(message) ==> is_refusal(
            config_tree(*old(config)),
            key@,
            value@,
            message@,
        ),
        r is Ok ==> puts(config_tree(*old(config)), config_tree(*final(config)), key@, value@),
        r is Ok ==> has_plugin_table(config_tree(*final(config))),
        r is Ok ==> has_no_validator(*final(config)),
        is_accepted((key@, value@)) ==> r is Ok,
        is_refused((key@, value@)) ==> r is Err,
{
    match config.insert_json5(key, value) {
        Ok(()) => Ok(()),
        Err(e) => Err(e.to_string()),
    }
}

/// The text as Rust's `Debug` writes it: between double quotes, with escapes
/// for what cannot stand there as it is.
pub uninterp spec fn debug_text(s: Seq<char>) -> Seq<char>;

/// The text is made of printable ASCII characters, with no quotes of either kind
/// and no backslashes.
pub open spec fn is_printable(s: Seq<char>) -> bool {
    forall|i: int|
        0 <= i < s.len() ==> {
            &&& 0x20 <= #[trigger] s[i] as int <= 0x7e
            &&& s[i] != '"'
            &&& s[i] != '\''
            &&& s[i] != '\\'
        }
}

/// `{:?}` of a text, which is a function of the text alone: printable ASCII
/// characters stand between the quotes as they are, but for quotes and
/// backslashes. What is written for other characters is not said.
#[verifier::external_body]
fn debug_quote(s: &str) -> (r: String)
    ensures
        r@ == debug_text(s@),
        is_printable(s@) ==> r@ == crate::text::quoted(s@),
{
    format!("{s:?}")
}

/// A setting: the key, and the value in JSON5.
#[derive(Debug)]
pub struct Setting {
    pub key: String,
    pub value: String,
}

impl View for Setting {
    type V = (Seq<char>, Seq<char>);

    open spec fn view(&self) -> (Seq<char>, Seq<char>) {
        (self.key@, self.value@)
    }
}

/// The keys and values of the settings.
pub open spec fn pairs(settings: Seq<Setting>) -> Seq<(Seq<char>, Seq<char>)> {
    settings.map_values(|s: Setting| s@)
}

/// Zenoh refused a setting.
#[derive(Debug)]
pub struct ConfigError {
    /// What Zenoh says of it.
    pub message: String,
}

impl ConfigError {
    /// The error for what Zenoh says.
    pub fn new(message: String) -> (e: ConfigError)
        ensures
            e.message@ == message@,
    {
        ConfigError { message }
    }
}

/// What a configuration that held `tree` holds after the settings have been put
/// into it in their order; none if one of them is refused.
pub open spec fn tree_after(
    tree: Map<Seq<char>, Seq<char>>,
    settings: Seq<(Seq<char>, Seq<char>)>,
) -> Option<Map<Seq<char>, Seq<char>>>
    decreases settings.len(),
{
    if settings.len() == 0 {
        Some(tree)
    } else {
        match tree_after(tree, settings.drop_last()) {
            Some(t) => tree_with(t, settings.last().0, settings.last().1),
            None => None,
        }
    }
}

/// What was refused stays refused, whatever settings follow.
proof fn lemma_refused_stays_refused(
    tree: Map<Seq<char>, Seq<char>>,
    settings: Seq<(Seq<char>, Seq<char>)>,
    n: int,
)
    requires
        0 <= n <= settings.len(),
        tree_after(tree, settings.take(n)) is None,
    ensures
        tree_after(tree, settings) is None,
    decreases settings.len(),
{
    if n == settings.len() {
        assert(settings.take(n) =~= settings);
    } else {
        assert(settings.drop_last().take(n) =~= settings.take(n));
        lemma_refused_stays_refused(tree, settings.drop_last(), n);
    }
}

/// A tree that holds the settings holds one more once it has been put in.
proof fn lemma_holds_one_more(
    before: Map<Seq<char>, Seq<char>>,
    after: Map<Seq<char>, Seq<char>>,
    settings: Seq<(Seq<char>, Seq<char>)>,
    last: (Seq<char>, Seq<char>),
)
    requires
        holds_latest(before, settings),
        forall|i: int| 0 <= i < settings.len() ==> is_known(#[trigger] settings[i]),
        puts(before, after, last.0, last.1),
    ensures
        holds_latest(after, settings.push(last)),
{
    let all = settings.push(last);
    assert forall|i: int|
        0 <= i < all.len() && (forall|j: int|
            i < j < all.len() ==> (#[trigger] all[j]).0 != all[i].0) implies takes_effect(
        after,
        #[trigger] all[i],
    ) by {
        if i < settings.len() {
            assert(all[settings.len() as int].0 != all[i].0);
            assert forall|j: int| i < j < settings.len() implies (#[trigger] settings[j]).0
                != settings[i].0 by {
                assert(all[j].0 != all[i].0);
            }
            assert(takes_effect(before, settings[i]));
            assert(is_known(settings[i]));
        }
    }
}

/// Whether Zenoh refuses one of the settings and none before it, and may say this of
/// it.
pub open spec fn is_first_refusal(
    tree: Map<Seq<char>, Seq<char>>,
    settings: Seq<(Seq<char>, Seq<char>)>,
    message: Seq<char>,
) -> bool {
    exists|n: int|
        0 <= n < settings.len() && match tree_after(tree, #[trigger] settings.take(n)) {
            Some(t) => tree_with(t, settings[n].0, settings[n].1) is None && is_refusal(
                t,
                settings[n].0,
                settings[n].1,
                message,
            ),
            None => false,
        }
}

/// Whether this is what comes of putting the settings into a configuration that
/// holds `tree`: a configuration that holds what comes of it, or what Zenoh says of
/// the first setting that it refuses.
pub open spec fn is_outcome(
    r: Result<zenoh::Config, ConfigError>,
    tree: Map<Seq<char>, Seq<char>>,
    settings: Seq<(Seq<char>, Seq<char>)>,
) -> bool {
    match r {
        Ok(config) => tree_after(tree, settings) == Some(config_tree(config)) && has_no_validator(
            config,
        ),
        Err(e) => tree_after(tree, settings) is None && is_first_refusal(
            tree,
            settings,
            e.message@,
        ),
    }
}

/// Whether the settings take effect, as far as no later one has the same key.
pub open spec fn holds_latest(
    tree: Map<Seq<char>, Seq<char>>,
    settings: Seq<(Seq<char>, Seq<char>)>,
) -> bool {
    forall|i: int|
        0 <= i < settings.len() && (forall|j: int|
            i < j < settings.len() ==> (#[trigger] settings[j]).0 != settings[i].0)
            ==> takes_effect(tree, #[trigger] settings[i])
}

/// Puts the settings into the configuration, in their order. The first one that
/// Zenoh refuses ends it.
pub fn configure(config: zenoh::Config, settings: &Vec<Setting>) -> (r: Result<
    zenoh::Config,
    ConfigError,
>)
    requires
        has_no_validator(config),
        has_plugin_table(config_tree(config)),
        forall|i: int| 0 <= i < settings@.len() ==> is_known(#[trigger] settings@[i]@),
    ensures
        is_outcome(r, config_tree(config), pairs(settings@)),
        r matches Ok(c) ==> holds_latest(config_tree(c), pairs(settings@)),
        (forall|i: int| 0 <= i < settings@.len() ==> is_accepted(#[trigger] settings@[i]@))
            ==> r is Ok,
        (exists|i: int| 0 <= i < settings@.len() && is_refused(#[trigger] settings@[i]@))
            ==> r is Err,
{
    let ghost tree: Map<Seq<char>, Seq<char>> = config_tree(config);
    let ghost all: Seq<(Seq<char>, Seq<char>)> = pairs(settings@);
    let mut built: zenoh::Config = config;
    let mut i: usize = 0;
    while i < settings.len()
        invariant
            i <= settings@.len(),
            tree == config_tree(config),
            all == pairs(settings@),
            forall|j: int| 0 <= j < settings@.len() ==> is_known(#[trigger] settings@[j]@),
            has_no_validator(built),
            has_plugin_table(config_tree(built)),
            holds_latest(config_tree(built), all.take(i as int)),
            forall|j: int| 0 <= j < i ==> !is_refused(#[trigger] settings@[j]@),
            tree_after(tree, all.take(i as int)) == Some(config_tree(built)),
        decreases settings@.len() - i,
    {
        let ghost before: Map<Seq<char>, Seq<char>> = config_tree(built);
        assert(all.take(i + 1).drop_last() =~= all.take(i as int));
        assert(all.take(i + 1).last() == settings@[i as int]@);
        if let Err(message) = insert_json5(
            &mut built,
            settings[i].key.as_str(),
            settings[i].value.as_str(),
        ) {
            proof {
                lemma_refused_stays_refused(tree, all, i + 1);
                assert(tree_after(tree, all.take(i as int)) == Some(before));
                assert(all[i as int] == settings@[i as int]@);
            }
            return Err(ConfigError::new(message));
        }
        proof {
            lemma_holds_one_more(
                before,
                config_tree(built),
                all.take(i as int),
                settings@[i as int]@,
            );
            assert(all.take(i + 1) =~= all.take(i as int).push(settings@[i as int]@));
        }
        i += 1;
    }
    assert(all.take(i as int) =~= all);
    Ok(built)
}

/// The namespace, or the default one if none is given.
pub open spec fn namespace_or_default(namespace: Option<&str>) -> Seq<char> {
    match namespace {
        Some(namespace) => namespace@,
        None => DEFAULT_NAMESPACE@,
    }
}

/// The settings of a session with this identity and in this namespace.
pub open spec fn session_pairs(identity: u128, namespace: Seq<char>) -> Seq<
    (Seq<char>, Seq<char>),
> {
    seq![
        ("id"@, crate::text::quoted(crate::text::numeral(identity as int, 16))),
        ("mode"@, "\"peer\""@),
        ("scouting/multicast/enabled"@, "true"@),
        ("scouting/multicast/autoconnect"@, "[]"@),
        ("scouting/gossip/multihop"@, "true"@),
        ("namespace"@, debug_text(namespace)),
        ("transport/link/tx/batch_size"@, "9216"@),
        ("timestamping/enabled"@, "true"@),
        ("plugins/storage_manager/__required__"@, "true"@),
        ("plugins/storage_manager/storages/mem1"@, STORAGE_JSON@),
    ]
}

/// The settings of a scout that listens on the interface of this name.
pub open spec fn scout_pairs(name: Seq<char>) -> Seq<(Seq<char>, Seq<char>)> {
    seq![("scouting/multicast/interface"@, crate::text::quoted(name))]
}

/// Whether this is the key and the value of a setting of some session or scout.
pub open spec fn is_known(pair: (Seq<char>, Seq<char>)) -> bool {
    ||| exists|identity: u128, namespace: Seq<char>|
        (#[trigger] session_pairs(identity, namespace)).contains(pair)
    ||| exists|name: Seq<char>| (#[trigger] scout_pairs(name)).contains(pair)
}

/// A setting of this key and value.
fn setting(key: &str, value: &str) -> (r: Setting)
    ensures
        r@ == (key@, value@),
{
    Setting { key: key.to_owned(), value: value.to_owned() }
}

/// The settings of a session with this identity, in the given namespace or, if
/// none is given, in the default one.
pub fn session_settings(identity: u128, namespace: Option<&str>) -> (r: Vec<Setting>)
    ensures
        pairs(r@) == session_pairs(identity, namespace_or_default(namespace)),
        is_printable(namespace_or_default(namespace)) ==> r@[5].value@ == crate::text::quoted(
            namespace_or_default(namespace),
        ),
        namespace is None ==> r@[5].value@ == crate::text::quoted(DEFAULT_NAMESPACE@),
        r@.len() == 10,
        r@[5].key@ == "namespace"@,
        namespace matches Some(given) ==> r@[5].value@ == debug_text(given@),
        namespace matches Some(given) ==> (is_printable(given@) ==> r@[5].value@ == seq!['"']
            + given@ + seq!['"']),
        namespace is None ==> r@[5].value@ == "\"exo\""@,
        r@[0].key@ == "id"@,
        r@[0].value@ == seq!['"'] + crate::text::numeral(identity as int, 16) + seq!['"'],
{
    proof {
        reveal_strlit("exo");
        assert(is_printable(DEFAULT_NAMESPACE@));
    }
    let mut id: String = "\"".to_owned();
    append_numeral(&mut id, identity, 16);
    id.append("\"");
    let namespace_json: String = match namespace {
        Some(namespace) => debug_quote(namespace),
        None => debug_quote(DEFAULT_NAMESPACE),
    };
    let mut r: Vec<Setting> = Vec::new();
    r.push(setting("id", id.as_str()));
    // mesh mode; "client" and "router" also exist
    r.push(setting("mode", "\"peer\""));
    r.push(setting("scouting/multicast/enabled", "true"));
    r.push(setting("scouting/multicast/autoconnect", "[]"));
    r.push(setting("scouting/gossip/multihop", "true"));
    r.push(setting("namespace", namespace_json.as_str()));
    r.push(setting("transport/link/tx/batch_size", "9216"));
    r.push(setting("timestamping/enabled", "true"));
    r.push(setting("plugins/storage_manager/__required__", "true"));
    r.push(setting("plugins/storage_manager/storages/mem1", STORAGE_JSON));
    assert(pairs(r@) =~= session_pairs(identity, namespace_or_default(namespace)));
    proof {
        crate::text::law_quoted(namespace_or_default(namespace));
        crate::text::law_quoted(crate::text::numeral(identity as int, 16));
        assert("\"exo\""@ =~= crate::text::quoted("exo"@)) by {
            reveal_strlit("\"exo\"");
            reveal_strlit("\"");
        }
        assert(r@[5]@ == pairs(r@)[5]);
        assert(r@[0]@ == pairs(r@)[0]);
    }
    r
}

/// The settings of a scout that listens on the interface of this name.
pub fn scout_settings(name: &str) -> (r: Vec<Setting>)
    ensures
        pairs(r@) == scout_pairs(name@),
{
    let value: String = quote(name);
    let mut r: Vec<Setting> = Vec::new();
    r.push(setting("scouting/multicast/interface", value.as_str()));
    assert(pairs(r@) =~= scout_pairs(name@));
    r
}

/// Settings with the keys and values of a session or a scout are known.
proof fn lemma_all_known(settings: Seq<Setting>, all: Seq<(Seq<char>, Seq<char>)>)
    requires
        pairs(settings) == all,
        (exists|identity: u128, namespace: Seq<char>|
            all == #[trigger] session_pairs(identity, namespace)) || (exists|name: Seq<char>|
            all == #[trigger] scout_pairs(name)),
    ensures
        forall|i: int| 0 <= i < settings.len() ==> is_known(#[trigger] settings[i]@),
{
    assert forall|i: int| 0 <= i < settings.len() implies is_known(#[trigger] settings[i]@) by {
        assert(pairs(settings)[i] == settings[i]@);
        assert(all.contains(settings[i]@));
    }
}

/// Whether this is what a configuration holds for a session with this identity
/// and in this namespace. The namespace is looked at only if it needs no escapes.
pub open spec fn is_session_tree(
    tree: Map<Seq<char>, Seq<char>>,
    identity: u128,
    namespace: Seq<char>,
) -> bool {
    &&& stands(tree, ("id"@, crate::text::quoted(crate::text::numeral(identity as int, 16))))
    &&& stands(tree, ("mode"@, "\"peer\""@))
    &&& stands(tree, ("scouting/multicast/enabled"@, "true"@))
    &&& stands(tree, ("scouting/multicast/autoconnect"@, "[]"@))
    &&& stands(tree, ("scouting/gossip/multihop"@, "true"@))
    &&& is_printable(namespace) ==> stands(tree, ("namespace"@, crate::text::quoted(namespace)))
    &&& stands(tree, ("transport/link/tx/batch_size"@, "9216"@))
    &&& stands(tree, ("timestamping/enabled"@, "true"@))
    &&& stands(tree, ("plugins/storage_manager/__required__"@, "true"@))
    &&& holds_storage(tree)
}

/// A numeral needs no escapes.
proof fn lemma_numeral_is_clean(n: int)
    requires
        n >= 0,
    ensures
        is_clean(crate::text::numeral(n, 16)),
    decreases n,
{
    if n >= 16 {
        lemma_numeral_is_clean(n / 16);
    }
}

/// Two texts are equal if they are so between quotes.
proof fn lemma_quoted_differ(one: Seq<char>, two: Seq<char>)
    requires
        crate::text::quoted(one) == crate::text::quoted(two),
    ensures
        one == two,
{
    reveal_strlit("\"");
    let text = crate::text::quoted(one);
    assert(text.subrange(1, text.len() - 1) =~= one);
    assert(text.subrange(1, text.len() - 1) =~= two);
}

/// The id in the settings is zero only for the identity zero.
proof fn lemma_zero_identity(identity: u128)
    ensures
        crate::text::quoted(crate::text::numeral(identity as int, 16)) == crate::text::quoted("0"@)
            <==> identity == 0,
{
    reveal_strlit("0");
    let one = crate::text::numeral(identity as int, 16);
    let zero = crate::text::numeral(0, 16);
    assert(zero =~= "0"@);
    if crate::text::quoted(one) == crate::text::quoted(zero) {
        lemma_quoted_differ(one, zero);
        crate::text::law_numeral_value(identity as int, 16);
        crate::text::law_numeral_value(0, 16);
    }
}

/// Which settings of a session are accepted and refused, if the namespace is
/// quoted as it is.
proof fn lemma_session_is_accepted(identity: u128, namespace: Seq<char>)
    requires
        is_printable(namespace),
        debug_text(namespace) == crate::text::quoted(namespace),
    ensures
        identity != 0 && is_key_expr(namespace) ==> forall|i: int|
            0 <= i < 10 ==> is_accepted(#[trigger] session_pairs(identity, namespace)[i]),
        !is_key_expr(namespace) ==> is_refused(session_pairs(identity, namespace)[5]),
{
    lemma_zero_identity(identity);
    let pairs = session_pairs(identity, namespace);
    assert(is_clean(namespace));
    assert(pairs[0].0 == "id"@);
    assert(pairs[5].0 == "namespace"@);
    if identity != 0 && is_key_expr(namespace) {
        assert forall|i: int| 0 <= i < 10 implies is_accepted(#[trigger] pairs[i]) by {
            assert(pairs[i].0 != "scouting/multicast/interface"@) by {
                lemma_key_lengths(identity, namespace);
                reveal_strlit("scouting/multicast/interface");
                reveal_strlit("transport/link/tx/batch_size");
                assert("scouting/multicast/interface"@[0] != "transport/link/tx/batch_size"@[0]);
            }
            if i != 0 {
                law_keys_differ(identity, namespace, 0, i);
            }
            if i < 5 {
                law_keys_differ(identity, namespace, i, 5);
            } else if i > 5 {
                law_keys_differ(identity, namespace, 5, i);
            }
        }
    }
}

/// A configuration in which the settings of a session take effect is that of the
/// session.
proof fn lemma_session_tree(
    tree: Map<Seq<char>, Seq<char>>,
    identity: u128,
    namespace: Seq<char>,
)
    requires
        holds_latest(tree, session_pairs(identity, namespace)),
        is_printable(namespace) ==> debug_text(namespace) == crate::text::quoted(namespace),
    ensures
        is_session_tree(tree, identity, namespace),
{
    let pairs = session_pairs(identity, namespace);
    lemma_numeral_is_clean(identity as int);
    assert("\"peer\""@ =~= crate::text::quoted("peer"@)) by {
        reveal_strlit("\"peer\"");
        reveal_strlit("peer");
        reveal_strlit("\"");
    }
    assert(is_clean("peer"@)) by {
        reveal_strlit("peer");
    }
    assert(is_printable(namespace) ==> is_clean(namespace));
    assert forall|i: int| 0 <= i < 10 implies takes_effect(tree, #[trigger] pairs[i]) by {
        assert forall|j: int| i < j < 10 implies (#[trigger] pairs[j]).0 != pairs[i].0 by {
            law_keys_differ(identity, namespace, i, j);
        }
    }
    assert(takes_effect(tree, pairs[0]) && is_canonical(pairs[0].1));
    assert(takes_effect(tree, pairs[1]) && is_canonical(pairs[1].1));
    assert(takes_effect(tree, pairs[2]));
    assert(takes_effect(tree, pairs[3]));
    assert(takes_effect(tree, pairs[4]));
    assert(takes_effect(tree, pairs[5]));
    assert(takes_effect(tree, pairs[6]));
    assert(takes_effect(tree, pairs[7]));
    assert(takes_effect(tree, pairs[8]));
    assert(takes_effect(tree, pairs[9]));
}

/// The configuration of a session with this identity, in the given namespace or,
/// if none is given, in the default one: Zenoh's default configuration with the
/// settings of the session put into it. The identity zero is refused. Of
/// namespaces in printable ASCII without quotes and backslashes, those are
/// accepted that name a key without wildcards; whether others are is up to Zenoh.
pub fn cfg(identity: u128, namespace: Option<&str>) -> (r: Result<zenoh::Config, ConfigError>)
    ensures
        exists|default_tree: Map<Seq<char>, Seq<char>>|
            #[trigger] is_default_tree(default_tree) && is_outcome(
                r,
                default_tree,
                session_pairs(identity, namespace_or_default(namespace)),
            ),
        identity == 0 ==> r is Err,
        is_printable(namespace_or_default(namespace)) ==> (r is Ok <==> identity != 0
            && is_key_expr(namespace_or_default(namespace))),
        identity != 0 && namespace is None ==> r is Ok,
        r matches Ok(config) ==> is_session_tree(
            config_tree(config),
            identity,
            namespace_or_default(namespace),
        ),
        namespace matches Some(given) ==> (is_printable(given@) ==> (r is Ok <==> identity != 0
            && is_key_expr(given@))),
        namespace matches Some(given) ==> (is_printable(given@) && r is Ok ==> config_tree(
            r->Ok_0,
        ).contains_key("namespace"@) && config_tree(r->Ok_0)["namespace"@] == seq!['"'] + given@
            + seq!['"']),
        namespace is None && r is Ok ==> config_tree(r->Ok_0).contains_key("namespace"@)
            && config_tree(r->Ok_0)["namespace"@] == "\"exo\""@,
        r is Ok ==> config_tree(r->Ok_0).contains_key("id"@) && config_tree(r->Ok_0)["id"@]
            == seq!['"'] + crate::text::numeral(identity as int, 16) + seq!['"'],
{
    let settings: Vec<Setting> = session_settings(identity, namespace);
    let ghost name: Seq<char> = namespace_or_default(namespace);
    let ghost all: Seq<(Seq<char>, Seq<char>)> = session_pairs(identity, name);
    proof {
        lemma_all_known(settings@, all);
        assert(pairs(settings@).len() == settings@.len());
        assert(forall|i: int| 0 <= i < 10 ==> all[i] == #[trigger] settings@[i]@);
        assert(all[0] == settings@[0]@);
        assert(all[5] == settings@[5]@);
        reveal_strlit("exo");
        lemma_zero_identity(identity);
        assert(identity == 0 ==> is_refused(settings@[0]@));
        if is_printable(name) {
            lemma_session_is_accepted(identity, name);
        }
    }
    let r: Result<zenoh::Config, ConfigError> = configure(default_config(), &settings);
    proof {
        if r is Ok {
            lemma_session_tree(config_tree(r->Ok_0), identity, name);
            crate::text::law_quoted(name);
            crate::text::law_quoted(crate::text::numeral(identity as int, 16));
            assert("\"exo\""@ =~= crate::text::quoted("exo"@)) by {
                reveal_strlit("\"exo\"");
                reveal_strlit("\"");
            }
        }
    }
    r
}

/// The configuration of a scout that listens on the interface of this name:
/// Zenoh's default configuration with the settings of the scout put into it. A
/// name that needs no escapes is accepted; whether other names are is up to Zenoh.
pub fn scout_cfg(name: &str) -> (r: Result<zenoh::Config, ConfigError>)
    ensures
        exists|default_tree: Map<Seq<char>, Seq<char>>|
            #[trigger] is_default_tree(default_tree) && is_outcome(
                r,
                default_tree,
                scout_pairs(name@),
            ),
        is_clean(name@) ==> (r matches Ok(config) && stands(
            config_tree(config),
            ("scouting/multicast/interface"@, crate::text::quoted(name@)),
        )),
{
    let settings: Vec<Setting> = scout_settings(name);
    proof {
        lemma_all_known(settings@, scout_pairs(name@));
        assert(pairs(settings@).len() == settings@.len());
        assert(pairs(settings@)[0] == settings@[0]@);
        reveal_strlit("id");
        reveal_strlit("namespace");
        reveal_strlit("scouting/multicast/interface");
        assert("id"@.len() == 2);
        assert("namespace"@.len() == 9);
        assert("scouting/multicast/interface"@.len() == 28);
        assert(settings@[0]@ == scout_pairs(name@)[0]);
    }
    let r: Result<zenoh::Config, ConfigError> = configure(default_config(), &settings);
    proof {
        if is_clean(name@) {
            assert(is_accepted(settings@[0]@));
            assert(is_canonical(scout_pairs(name@)[0].1));
            assert(takes_effect(config_tree(r->Ok_0), scout_pairs(name@)[0]));
        }
    }
    r
}

/// The settings tell the identity: sessions with different identities are
/// configured differently.
pub proof fn law_settings_tell_identity(
    identity: u128,
    namespace: Seq<char>,
    other_identity: u128,
    other_namespace: Seq<char>,
)
    requires
        session_pairs(identity, namespace)[0] == session_pairs(other_identity, other_namespace)[0],
    ensures
        identity == other_identity,
{
    lemma_quoted_differ(
        crate::text::numeral(identity as int, 16),
        crate::text::numeral(other_identity as int, 16),
    );
    crate::text::law_numeral_value(identity as int, 16);
    crate::text::law_numeral_value(other_identity as int, 16);
}

/// The lengths of the keys, no two of which are of one length.
proof fn lemma_key_lengths(identity: u128, namespace: Seq<char>)
    ensures
        session_pairs(identity, namespace)[0].0.len() == 2,
        session_pairs(identity, namespace)[1].0.len() == 4,
        session_pairs(identity, namespace)[2].0.len() == 26,
        session_pairs(identity, namespace)[3].0.len() == 30,
        session_pairs(identity, namespace)[4].0.len() == 24,
        session_pairs(identity, namespace)[5].0.len() == 9,
        session_pairs(identity, namespace)[6].0.len() == 28,
        session_pairs(identity, namespace)[7].0.len() == 20,
        session_pairs(identity, namespace)[8].0.len() == 36,
        session_pairs(identity, namespace)[9].0.len() == 37,
{
    reveal_strlit("id");
    reveal_strlit("mode");
    reveal_strlit("scouting/multicast/enabled");
    reveal_strlit("scouting/multicast/autoconnect");
    reveal_strlit("scouting/gossip/multihop");
    reveal_strlit("namespace");
    reveal_strlit("transport/link/tx/batch_size");
    reveal_strlit("timestamping/enabled");
    reveal_strlit("plugins/storage_manager/__required__");
    reveal_strlit("plugins/storage_manager/storages/mem1");
}

/// No setting of a session takes the place of another one: their keys differ.
pub proof fn law_keys_differ(identity: u128, namespace: Seq<char>, i: int, j: int)
    requires
        0 <= i < j < session_pairs(identity, namespace).len(),
    ensures
        session_pairs(identity, namespace)[i].0 != session_pairs(identity, namespace)[j].0,
{
    lemma_key_lengths(identity, namespace);
}

/// A given namespace is the namespace, as it is and however long it is; only where
/// none is given it is `exo`.
pub proof fn law_given_namespaces_are_taken(namespace: Option<&str>)
    ensures
        namespace matches Some(given) ==> namespace_or_default(namespace) == given@,
        namespace is None ==> namespace_or_default(namespace) == "exo"@,
{
}

/// What a session is told, setting by setting, and in which order.
pub proof fn law_session_settings(identity: u128, namespace: Seq<char>)
    ensures
        session_pairs(identity, namespace).len() == 10,
        session_pairs(identity, namespace)[0] == (
            "id"@,
            seq!['"'] + crate::text::numeral(identity as int, 16) + seq!['"'],
        ),
        session_pairs(identity, namespace)[1] == ("mode"@, "\"peer\""@),
        session_pairs(identity, namespace)[2] == ("scouting/multicast/enabled"@, "true"@),
        session_pairs(identity, namespace)[3] == ("scouting/multicast/autoconnect"@, "[]"@),
        session_pairs(identity, namespace)[4] == ("scouting/gossip/multihop"@, "true"@),
        session_pairs(identity, namespace)[5] == ("namespace"@, debug_text(namespace)),
        session_pairs(identity, namespace)[6] == ("transport/link/tx/batch_size"@, "9216"@),
        session_pairs(identity, namespace)[7] == ("timestamping/enabled"@, "true"@),
        session_pairs(identity, namespace)[8] == (
            "plugins/storage_manager/__required__"@,
            "true"@,
        ),
        session_pairs(identity, namespace)[9] == (
            "plugins/storage_manager/storages/mem1"@,
            r#"{
            key_expr: "storage/mem1/**",
            strip_prefix: "storage/mem1",
            volume: "memory",
            replication: {
                interval: 2,
            }
        }"#@,
        ),
{
    crate::text::law_quoted(crate::text::numeral(identity as int, 16));
}

/// Sessions with different namespaces are told different namespaces, if these are in
/// printable ASCII without quotes and backslashes, and so are written as they are.
pub proof fn law_settings_tell_namespace(
    identity: u128,
    namespace: Seq<char>,
    other_identity: u128,
    other_namespace: Seq<char>,
)
    requires
        debug_text(namespace) == seq!['"'] + namespace + seq!['"'],
        debug_text(other_namespace) == seq!['"'] + other_namespace + seq!['"'],
        session_pairs(identity, namespace)[5] == session_pairs(other_identity, other_namespace)[5],
    ensures
        namespace == other_namespace,
{
    let text = debug_text(namespace);
    assert(text.subrange(1, text.len() - 1) =~= namespace);
    assert(text.subrange(1, text.len() - 1) =~= other_namespace);
}

/// What a scout is told: the name of its interface, between quotes.
pub proof fn law_scout_settings(name: Seq<char>)
    ensures
        scout_pairs(name) == seq![
            ("scouting/multicast/interface"@, seq!['"'] + name + seq!['"']),
        ],
{
    crate::text::law_quoted(name);
}

/// Settings are put in one after the other: none change nothing, and one more is put
/// into what those before it have made, if none of them was refused.
pub proof fn law_settings_are_put_in_one_by_one(
    tree: Map<Seq<char>, Seq<char>>,
    settings: Seq<(Seq<char>, Seq<char>)>,
    pair: (Seq<char>, Seq<char>),
)
    ensures
        tree_after(tree, Seq::empty()) == Some(tree),
        tree_after(tree, settings.push(pair)) == match tree_after(tree, settings) {
            Some(t) => tree_with(t, pair.0, pair.1),
            None => None,
        },
{
    assert(settings.push(pair).drop_last() =~= settings);
}

/// What stands in the configuration of a session, key by key.
pub proof fn law_session_tree(
    tree: Map<Seq<char>, Seq<char>>,
    identity: u128,
    namespace: Seq<char>,
)
    requires
        is_session_tree(tree, identity, namespace),
    ensures
        tree.contains_pair(
            "id"@,
            seq!['"'] + crate::text::numeral(identity as int, 16) + seq!['"'],
        ),
        tree.contains_pair("mode"@, "\"peer\""@),
        tree.contains_pair("scouting/multicast/enabled"@, "true"@),
        tree.contains_pair("scouting/multicast/autoconnect"@, "[]"@),
        tree.contains_pair("scouting/gossip/multihop"@, "true"@),
        is_printable(namespace) ==> tree.contains_pair(
            "namespace"@,
            seq!['"'] + namespace + seq!['"'],
        ),
        tree.contains_pair("transport/link/tx/batch_size"@, "9216"@),
        tree.contains_pair("timestamping/enabled"@, "true"@),
        tree.contains_pair("plugins/storage_manager/__required__"@, "true"@),
        tree.contains_pair(
            "plugins/storage_manager/storages/mem1/key_expr"@,
            "\"storage/mem1/**\""@,
        ),
        tree.contains_pair(
            "plugins/storage_manager/storages/mem1/strip_prefix"@,
            "\"storage/mem1\""@,
        ),
        tree.contains_pair("plugins/storage_manager/storages/mem1/volume"@, "\"memory\""@),
        tree.contains_pair(
            "plugins/storage_manager/storages/mem1/replication/interval"@,
            "2"@,
        ),
{
    crate::text::law_quoted(namespace);
    crate::text::law_quoted(crate::text::numeral(identity as int, 16));
}

/// What putting settings in comes to: a configuration holds what they make of what it
/// held; an error says that they are refused, speaks of a setting that is refused
/// where those before it are not, and is what Zenoh may say of that setting.
pub proof fn law_outcomes(
    r: Result<zenoh::Config, ConfigError>,
    tree: Map<Seq<char>, Seq<char>>,
    settings: Seq<(Seq<char>, Seq<char>)>,
)
    requires
        is_outcome(r, tree, settings),
    ensures
        r matches Ok(config) ==> tree_after(tree, settings) == Some(config_tree(config)),
        r is Ok <==> tree_after(tree, settings) is Some,
        r matches Err(e) ==> exists|n: int|
            0 <= n < settings.len() && match tree_after(tree, #[trigger] settings.take(n)) {
                Some(t) => tree_with(t, settings[n].0, settings[n].1) is None && is_refusal(
                    t,
                    settings[n].0,
                    settings[n].1,
                    e.message@,
                ),
                None => false,
            },
{
}

/// A namespace names a key without wildcards exactly if it is not empty, neither
/// starts nor ends with a slash, has no two slashes in a row, and `*`, `$`, `#` and
/// `?` do not occur in it.
pub proof fn law_key_exprs(s: Seq<char>)
    ensures
        is_key_expr(s) <==> {
            &&& !s.contains('*')
            &&& !s.contains('$')
            &&& !s.contains('#')
            &&& !s.contains('?')
            &&& s.len() > 0 && s.first() != '/' && s.last() != '/'
            &&& forall|i: int, j: int|
                0 <= i < j < s.len() && j == i + 1 ==> !(#[trigger] s[i] == '/' && #[trigger] s[j]
                    == '/')
        },
{
    if s.len() > 0 && !is_key_expr(s) && s.first() != '/' && s.last() != '/' && !s.contains('*')
        && !s.contains('$') && !s.contains('#') && !s.contains('?') {
        let j = choose|j: int| 0 < j < s.len() && s[j - 1] == '/' && #[trigger] s[j] == '/';
        assert(s[j - 1] == '/' && s[j] == '/');
    }
    if is_key_expr(s) {
        assert forall|i: int, j: int| 0 <= i < j < s.len() && j == i + 1 implies !(#[trigger] s[i]
            == '/' && #[trigger] s[j] == '/') by {
            assert(!(s[j - 1] == '/' && s[j] == '/'));
        }
    }
}

} // verus!
