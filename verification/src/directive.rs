//! Directives: the annotations on a record and on its fields, as structured
//! values, and the settings that are read from them.

use vstd::prelude::*;
use vstd::hash_set::StringHashSet;
use vstd::string::*;
use crate::error::GenError;
use crate::outside::{parse_path, parsed_path};
use crate::text::text_is;

verus! {

/// A literal that stands as the value of a directive.
#[derive(Debug, PartialEq, Eq)]
pub enum Literal {
    /// A string; `cooked` is false for a raw string.
    Str { value: String, cooked: bool },
    /// Any literal that is no string.
    Other,
}

/// One entry of a directive that holds a list.
#[derive(Debug, PartialEq, Eq)]
pub enum DirectiveArg {
    /// A bare name.
    Word(String),
    /// A name with a value.
    NameValue(String, Literal),
    /// Anything else: a literal, or a list inside the list.
    Other,
}

/// One annotation.
#[derive(Debug, PartialEq, Eq)]
pub enum Directive {
    /// A bare name.
    Word(String),
    /// A name with a list of entries in parentheses.
    List(String, Vec<DirectiveArg>),
    /// A name with a value.
    NameValue(String, Literal),
}

impl Literal {
    /// The text of an ordinary string literal; no other literal gives a setting.
    pub open spec fn setting(self) -> Option<Seq<char>> {
        match self {
            Literal::Str { value, cooked } => if cooked {
                Some(value@)
            } else {
                None
            },
            Literal::Other => None,
        }
    }

    /// The text of an ordinary string literal.
    pub fn as_setting(&self) -> (text: Option<&String>)
        ensures
            text matches Some(t) ==> self.setting() == Some(t@),
            text is None ==> self.setting() is None,
    {
        match self {
            Literal::Str { value, cooked } => if *cooked {
                Some(value)
            } else {
                None
            },
            Literal::Other => None,
        }
    }
}

impl DirectiveArg {
    /// The setting that this entry gives to `key`, if it gives one.
    pub open spec fn value_for(self, key: Seq<char>) -> Option<Seq<char>> {
        match self {
            DirectiveArg::NameValue(name, literal) => if name@ == key {
                literal.setting()
            } else {
                None
            },
            _ => None,
        }
    }

    /// The bare name that this entry is, if it is one.
    pub open spec fn word(self) -> Option<Seq<char>> {
        match self {
            DirectiveArg::Word(name) => Some(name@),
            _ => None,
        }
    }
}

impl Directive {
    /// The entries of this directive if it is a list called `name`.
    pub open spec fn list_named(self, name: Seq<char>) -> Option<Seq<DirectiveArg>> {
        match self {
            Directive::List(n, args) => if n@ == name {
                Some(args@)
            } else {
                None
            },
            _ => None,
        }
    }

    /// The setting of this directive if it has the form `name = "setting"`.
    pub open spec fn value_named(self, name: Seq<char>) -> Option<Seq<char>> {
        match self {
            Directive::NameValue(n, literal) => if n@ == name {
                literal.setting()
            } else {
                None
            },
            _ => None,
        }
    }
}

/// The settings that the entries give to `key`, in order.
pub open spec fn settings_for(args: Seq<DirectiveArg>, key: Seq<char>) -> Seq<Seq<char>>
    decreases args.len(),
{
    if args.len() == 0 {
        Seq::empty()
    } else {
        let before = settings_for(args.drop_last(), key);
        match args.last().value_for(key) {
            Some(text) => before.push(text),
            None => before,
        }
    }
}

/// The one setting of a list of at most one, or `default` where there is
/// none.
pub open spec fn chosen(settings: Seq<Seq<char>>, default: Seq<char>) -> Seq<char> {
    if settings.len() == 0 {
        default
    } else {
        settings[0]
    }
}

/// The entry lists of all the list directives called `name`, in order.
pub open spec fn lists_named(attrs: Seq<Directive>, name: Seq<char>) -> Seq<Seq<DirectiveArg>>
    decreases attrs.len(),
{
    if attrs.len() == 0 {
        Seq::empty()
    } else {
        let before = lists_named(attrs.drop_last(), name);
        match attrs.last().list_named(name) {
            Some(args) => before.push(args),
            None => before,
        }
    }
}

/// The settings of all the directives `name = "setting"`, in order.
pub open spec fn values_named(attrs: Seq<Directive>, name: Seq<char>) -> Seq<Seq<char>>
    decreases attrs.len(),
{
    if attrs.len() == 0 {
        Seq::empty()
    } else {
        let before = values_named(attrs.drop_last(), name);
        match attrs.last().value_named(name) {
            Some(text) => before.push(text),
            None => before,
        }
    }
}

/// Hands out the only item of `items`, or nothing where there is none, and
/// refuses with `error` where there are several.
pub fn collect_most_one<T>(items: Vec<T>, error: GenError) -> (one: Result<Option<T>, GenError>)
    ensures
        items@.len() == 0 ==> one == Ok::<Option<T>, GenError>(None),
        items@.len() == 1 ==> one == Ok::<Option<T>, GenError>(Some(items@[0])),
        items@.len() > 1 ==> one == Err::<Option<T>, GenError>(error),
{
    let mut items = items;
    if items.len() > 1 {
        Err(error)
    } else {
        Ok(items.pop())
    }
}

/// The list directives called `name`.
fn select_lists<'a>(attrs: &'a Vec<Directive>, name: &str) -> (found: Vec<&'a Vec<DirectiveArg>>)
    ensures
        found@.len() == lists_named(attrs@, name@).len(),
        forall|k: int| 0 <= k < found@.len() ==> (#[trigger] found@[k])@ == lists_named(attrs@, name@)[k],
{
    let mut found: Vec<&'a Vec<DirectiveArg>> = Vec::new();
    let mut i: usize = 0;
    while i < attrs.len()
        invariant
            i <= attrs.len(),
            found@.len() == lists_named(attrs@.take(i as int), name@).len(),
            forall|k: int| 0 <= k < found@.len() ==> (#[trigger] found@[k])@ == lists_named(
                attrs@.take(i as int),
                name@,
            )[k],
        decreases attrs.len() - i,
    {
        proof {
            assert(attrs@.take(i + 1).drop_last() =~= attrs@.take(i as int));
        }
        match &attrs[i] {
            Directive::List(n, args) => {
                if text_is(n, name) {
                    found.push(args);
                }
            },
            _ => {},
        }
        i += 1;
    }
    proof {
        assert(attrs@.take(i as int) =~= attrs@);
    }
    found
}

/// The settings of the directives `name = "setting"`.
fn select_values<'a>(attrs: &'a Vec<Directive>, name: &str) -> (found: Vec<&'a String>)
    ensures
        found@.len() == values_named(attrs@, name@).len(),
        forall|k: int| 0 <= k < found@.len() ==> (#[trigger] found@[k])@ == values_named(attrs@, name@)[k],
{
    let mut found: Vec<&'a String> = Vec::new();
    let mut i: usize = 0;
    while i < attrs.len()
        invariant
            i <= attrs.len(),
            found@.len() == values_named(attrs@.take(i as int), name@).len(),
            forall|k: int| 0 <= k < found@.len() ==> (#[trigger] found@[k])@ == values_named(
                attrs@.take(i as int),
                name@,
            )[k],
        decreases attrs.len() - i,
    {
        proof {
            assert(attrs@.take(i + 1).drop_last() =~= attrs@.take(i as int));
        }
        match &attrs[i] {
            Directive::NameValue(n, literal) => {
                if text_is(n, name) {
                    match literal.as_setting() {
                        Some(text) => {
                            found.push(text);
                        },
                        None => {},
                    }
                }
            },
            _ => {},
        }
        i += 1;
    }
    proof {
        assert(attrs@.take(i as int) =~= attrs@);
    }
    found
}


/// One of the three names that a naming directive can set.
#[derive(Clone, Copy, Debug, PartialEq, Eq, Structural)]
pub enum Named {
    /// The builder type.
    Builder,
    /// The constructor.
    New,
    /// The finalizer.
    Build,
}

impl Named {
    /// The key under which a naming directive sets this name.
    pub open spec fn key(self) -> Seq<char> {
        match self {
            Named::Builder => "builder"@,
            Named::New => "new"@,
            Named::Build => "build"@,
        }
    }

    /// The name whose key is `s`.
    pub open spec fn of_key(s: Seq<char>) -> Option<Named> {
        if s == "builder"@ {
            Some(Named::Builder)
        } else if s == "new"@ {
            Some(Named::New)
        } else if s == "build"@ {
            Some(Named::Build)
        } else {
            None
        }
    }

    /// Reads a key of a naming directive.
    pub fn from_str(s: &str) -> (which: Option<Named>)
        ensures
            which == Named::of_key(s@),
    {
        if text_is(s, "builder") {
            Some(Named::Builder)
        } else if text_is(s, "new") {
            Some(Named::New)
        } else if text_is(s, "build") {
            Some(Named::Build)
        } else {
            None
        }
    }
}

/// The three keys are different texts.
pub proof fn lemma_keys_differ()
    ensures
        "builder"@ != "new"@,
        "builder"@ != "build"@,
        "new"@ != "build"@,
        forall|which: Named| Named::of_key(which.key()) == Some(which),
{
    reveal_strlit("builder");
    reveal_strlit("new");
    reveal_strlit("build");
    assert("builder"@.len() == 7);
    assert("new"@.len() == 3);
    assert("build"@.len() == 5);
}

/// The entries of the one list directive called `name`; none where there is
/// no such directive.
pub open spec fn entries_of(attrs: Seq<Directive>, name: Seq<char>) -> Seq<DirectiveArg> {
    if lists_named(attrs, name).len() == 0 {
        Seq::empty()
    } else {
        lists_named(attrs, name)[0]
    }
}

/// The names of the builder type, of the constructor and of the finalizer
/// that the directives ask for. A directive that sets one of the names more
/// than once is at fault, whatever the settings are.
pub open spec fn builder_names(attrs: Seq<Directive>) -> Result<
    (Seq<char>, Seq<char>, Seq<char>),
    GenError,
> {
    if lists_named(attrs, "builder_names"@).len() > 1 {
        Err(GenError::DuplicateNames)
    } else {
        let entries = entries_of(attrs, "builder_names"@);
        let builder = settings_for(entries, "builder"@);
        let new = settings_for(entries, "new"@);
        let build = settings_for(entries, "build"@);
        if builder.len() > 1 || new.len() > 1 || build.len() > 1 {
            Err(GenError::ConflictingNames)
        } else {
            Ok((chosen(builder, "Builder"@), chosen(new, "new"@), chosen(build, "build"@)))
        }
    }
}

/// The one text of a list of at most one, or `default`; several are refused.
fn choose_one(found: Vec<&String>, default: &str) -> (one: Result<String, GenError>)
    ensures
        match one {
            Ok(text) => found@.len() <= 1 && text@ == if found@.len() == 0 {
                default@
            } else {
                found@[0]@
            },
            Err(e) => found@.len() > 1 && e == GenError::ConflictingNames,
        },
{
    match collect_most_one(found, GenError::ConflictingNames) {
        Err(e) => Err(e),
        Ok(None) => Ok(String::from_str(default)),
        Ok(Some(text)) => Ok(text.clone()),
    }
}

/// Reads the names of the builder type, of its constructor and of its
/// finalizer from the directive `builder_names(builder = "..", new = "..",
/// build = "..")`. A name that the directive does not set keeps its default:
/// `Builder`, `new`, `build`. Two such directives are refused, and so is a
/// directive that sets one name twice.
pub fn get_builder_names(attrs: &Vec<Directive>) -> (names: Result<
    (String, String, String),
    GenError,
>)
    ensures
        match names {
            Ok((builder, new, build)) => builder_names(attrs@) == Ok::<
                (Seq<char>, Seq<char>, Seq<char>),
                GenError,
            >((builder@, new@, build@)),
            Err(e) => builder_names(attrs@) == Err::<(Seq<char>, Seq<char>, Seq<char>), GenError>(e),
        },
{
    let lists = select_lists(attrs, "builder_names");
    let ghost found = lists@;
    let empty: Vec<DirectiveArg> = Vec::new();
    let args = match collect_most_one(lists, GenError::DuplicateNames) {
        Err(e) => {
            return Err(e);
        },
        Ok(None) => &empty,
        Ok(Some(args)) => {
            assert(args == found[0]);
            args
        },
    };
    assert(args@ == entries_of(attrs@, "builder_names"@));
    let mut builders: Vec<&String> = Vec::new();
    let mut news: Vec<&String> = Vec::new();
    let mut builds: Vec<&String> = Vec::new();
    let mut i: usize = 0;
    while i < args.len()
        invariant
            i <= args.len(),
            same_texts(builders@, settings_for(args@.take(i as int), "builder"@)),
            same_texts(news@, settings_for(args@.take(i as int), "new"@)),
            same_texts(builds@, settings_for(args@.take(i as int), "build"@)),
        decreases args.len() - i,
    {
        proof {
            assert(args@.take(i + 1).drop_last() =~= args@.take(i as int));
            lemma_keys_differ();
        }
        match &args[i] {
            DirectiveArg::NameValue(name, literal) => {
                match Named::from_str(name.as_str()) {
                    Some(which) => {
                        match literal.as_setting() {
                            Some(text) => {
                                match which {
                                    Named::Builder => {
                                        builders.push(text);
                                    },
                                    Named::New => {
                                        news.push(text);
                                    },
                                    Named::Build => {
                                        builds.push(text);
                                    },
                                }
                            },
                            None => {},
                        }
                    },
                    None => {},
                }
            },
            _ => {},
        }
        i += 1;
    }
    proof {
        assert(args@.take(i as int) =~= args@);
    }
    let builder = choose_one(builders, "Builder");
    let new = choose_one(news, "new");
    let build = choose_one(builds, "build");
    match (builder, new, build) {
        (Ok(builder), Ok(new), Ok(build)) => Ok((builder, new, build)),
        _ => Err(GenError::ConflictingNames),
    }
}

/// Whether the texts are, one by one, what the settings read.
pub open spec fn same_texts(found: Seq<&String>, settings: Seq<Seq<char>>) -> bool {
    &&& found.len() == settings.len()
    &&& forall|k: int| 0 <= k < found.len() ==> (#[trigger] found[k])@ == settings[k]
}

/// The bare names among the entries, in order.
pub open spec fn words_of(args: Seq<DirectiveArg>) -> Seq<Seq<char>>
    decreases args.len(),
{
    if args.len() == 0 {
        Seq::empty()
    } else {
        let before = words_of(args.drop_last());
        match args.last().word() {
            Some(name) => before.push(name),
            None => before,
        }
    }
}

/// The bare names in all the list directives called `name`, in order.
pub open spec fn words_named(attrs: Seq<Directive>, name: Seq<char>) -> Seq<Seq<char>>
    decreases attrs.len(),
{
    if attrs.len() == 0 {
        Seq::empty()
    } else {
        let before = words_named(attrs.drop_last(), name);
        match attrs.last().list_named(name) {
            Some(args) => before + words_of(args),
            None => before,
        }
    }
}

/// Adds to `found` the bare names among `args`.
fn collect_words(found: &mut StringHashSet, args: &Vec<DirectiveArg>, Ghost(before): Ghost<
    Seq<Seq<char>>,
>)
    requires
        old(found)@ == before.to_set(),
    ensures
        final(found)@ == (before + words_of(args@)).to_set(),
{
    let mut i: usize = 0;
    proof {
        assert(before + words_of(args@.take(0)) =~= before);
    }
    while i < args.len()
        invariant
            i <= args.len(),
            found@ == (before + words_of(args@.take(i as int))).to_set(),
        decreases args.len() - i,
    {
        proof {
            assert(args@.take(i + 1).drop_last() =~= args@.take(i as int));
        }
        match &args[i] {
            DirectiveArg::Word(name) => {
                let ghost so_far = before + words_of(args@.take(i as int));
                proof {
                    assert(before + words_of(args@.take(i + 1)) =~= so_far.push(name@));
                    so_far.lemma_push_to_set_commute(name@);
                }
                found.insert(name.clone());
            },
            _ => {},
        }
        i += 1;
    }
    proof {
        assert(args@.take(i as int) =~= args@);
    }
}

/// Reads which capabilities the builder is asked to have: the set of the
/// bare names in the directives `builder_derive(..)`.
pub fn get_derives(attrs: &Vec<Directive>) -> (derives: StringHashSet)
    ensures
        derives@ == words_named(attrs@, "builder_derive"@).to_set(),
        forall|w: Seq<char>|
            derives@.contains(w) <==> words_named(attrs@, "builder_derive"@).contains(w),
{
    let mut derives = StringHashSet::new();
    let mut i: usize = 0;
    proof {
        assert(derives@ =~= Seq::<Seq<char>>::empty().to_set());
    }
    while i < attrs.len()
        invariant
            i <= attrs.len(),
            derives@ == words_named(attrs@.take(i as int), "builder_derive"@).to_set(),
        decreases attrs.len() - i,
    {
        proof {
            assert(attrs@.take(i + 1).drop_last() =~= attrs@.take(i as int));
        }
        match &attrs[i] {
            Directive::List(name, args) => {
                if text_is(name.as_str(), "builder_derive") {
                    collect_words(
                        &mut derives,
                        args,
                        Ghost(words_named(attrs@.take(i as int), "builder_derive"@)),
                    );
                }
            },
            _ => {},
        }
        i += 1;
    }
    proof {
        assert(attrs@.take(i as int) =~= attrs@);
    }
    derives
}

/// The prefix of setter names that the directives of one item ask for.
pub open spec fn setter_prefix(attrs: Seq<Directive>, default: Seq<char>) -> Result<
    Seq<char>,
    GenError,
> {
    let given = values_named(attrs, "builder_prefix"@);
    if given.len() > 1 {
        Err(GenError::DuplicatePrefix)
    } else if given.len() == 1 {
        Ok(given[0])
    } else {
        Ok(default)
    }
}

/// Reads the prefix of setter names from the directive `builder_prefix =
/// ".."` of one item; without one the prefix is `default`. Two such
/// directives on one item are refused.
pub fn get_setter_prefix(attrs: &Vec<Directive>, default: String) -> (prefix: Result<
    String,
    GenError,
>)
    ensures
        match prefix {
            Ok(text) => setter_prefix(attrs@, default@) == Ok::<Seq<char>, GenError>(text@),
            Err(e) => setter_prefix(attrs@, default@) == Err::<Seq<char>, GenError>(e),
        },
{
    let given = select_values(attrs, "builder_prefix");
    match collect_most_one(given, GenError::DuplicatePrefix) {
        Err(e) => Err(e),
        Ok(None) => Ok(default),
        Ok(Some(text)) => Ok(text.clone()),
    }
}

/// The name of the builder type that the directives ask for in the form
/// `builder_name = ".."`.
pub open spec fn builder_name(attrs: Seq<Directive>) -> Result<Seq<char>, GenError> {
    let given = values_named(attrs, "builder_name"@);
    if given.len() > 1 {
        Err(GenError::DuplicateBuilderName)
    } else if given.len() == 1 {
        Ok(given[0])
    } else {
        Ok("Builder"@)
    }
}

/// Reads the name of the builder type from the directive `builder_name =
/// ".."`; without one it is `Builder`. Two such directives are refused.
pub fn get_builder_name(attrs: &Vec<Directive>) -> (name: Result<String, GenError>)
    ensures
        match name {
            Ok(text) => builder_name(attrs@) == Ok::<Seq<char>, GenError>(text@),
            Err(e) => builder_name(attrs@) == Err::<Seq<char>, GenError>(e),
        },
{
    let given = select_values(attrs, "builder_name");
    match collect_most_one(given, GenError::DuplicateBuilderName) {
        Err(e) => Err(e),
        Ok(None) => Ok(String::from_str("Builder")),
        Ok(Some(text)) => Ok(text.clone()),
    }
}

/// The names of the constructor and of the finalizer that the directives ask
/// for in the form `builder_rename(new = "..", build = "..")`.
pub open spec fn builder_methods(attrs: Seq<Directive>) -> Result<
    (Seq<char>, Seq<char>),
    GenError,
> {
    if lists_named(attrs, "builder_rename"@).len() > 1 {
        Err(GenError::DuplicateRename)
    } else {
        let entries = entries_of(attrs, "builder_rename"@);
        let new = settings_for(entries, "new"@);
        let build = settings_for(entries, "build"@);
        if new.len() > 1 || build.len() > 1 {
            Err(GenError::ConflictingNames)
        } else {
            Ok((chosen(new, "new"@), chosen(build, "build"@)))
        }
    }
}

/// Reads the names of the constructor and of the finalizer from the
/// directive `builder_rename(new = "..", build = "..")`. A name that the
/// directive does not set keeps its default: `new`, `build`. Two such
/// directives are refused, and so is a directive that sets one name twice.
pub fn get_builder_methods(attrs: &Vec<Directive>) -> (names: Result<(String, String), GenError>)
    ensures
        match names {
            Ok((new, build)) => builder_methods(attrs@) == Ok::<(Seq<char>, Seq<char>), GenError>(
                (new@, build@),
            ),
            Err(e) => builder_methods(attrs@) == Err::<(Seq<char>, Seq<char>), GenError>(e),
        },
{
    let lists = select_lists(attrs, "builder_rename");
    let ghost found = lists@;
    let empty: Vec<DirectiveArg> = Vec::new();
    let args = match collect_most_one(lists, GenError::DuplicateRename) {
        Err(e) => {
            return Err(e);
        },
        Ok(None) => &empty,
        Ok(Some(args)) => {
            assert(args == found[0]);
            args
        },
    };
    assert(args@ == entries_of(attrs@, "builder_rename"@));
    let mut news: Vec<&String> = Vec::new();
    let mut builds: Vec<&String> = Vec::new();
    let mut i: usize = 0;
    while i < args.len()
        invariant
            i <= args.len(),
            same_texts(news@, settings_for(args@.take(i as int), "new"@)),
            same_texts(builds@, settings_for(args@.take(i as int), "build"@)),
        decreases args.len() - i,
    {
        proof {
            assert(args@.take(i + 1).drop_last() =~= args@.take(i as int));
            lemma_keys_differ();
        }
        match &args[i] {
            DirectiveArg::NameValue(name, literal) => {
                let first = text_is(name.as_str(), "new");
                if first || text_is(name.as_str(), "build") {
                    match literal.as_setting() {
                        Some(text) => {
                            if first {
                                news.push(text);
                            } else {
                                builds.push(text);
                            }
                        },
                        None => {},
                    }
                }
            },
            _ => {},
        }
        i += 1;
    }
    proof {
        assert(args@.take(i as int) =~= args@);
    }
    let new = choose_one(news, "new");
    let build = choose_one(builds, "build");
    match (new, build) {
        (Ok(new), Ok(build)) => Ok((new, build)),
        _ => Err(GenError::ConflictingNames),
    }
}

/// The path that an entry of a validation directive gives, as validator or
/// as error type, as the directive writes it.
pub open spec fn path_setting(arg: DirectiveArg) -> Option<Seq<char>> {
    match arg.value_for("validator"@) {
        Some(text) => Some(text),
        None => arg.value_for("error"@),
    }
}

/// The path that a text is read as, in the words of the parser; nothing
/// where the text is no path. A text with a character outside ASCII is never
/// handed to the parser and is no path.
pub open spec fn path_of(text: Seq<char>) -> Option<Seq<char>> {
    if vstd::utf8::is_ascii_chars(text) {
        parsed_path(text)
    } else {
        None
    }
}

/// For each entry, the path that its setting is read as; nothing for an
/// entry that sets no path and for a setting that is no path.
pub open spec fn paths_of(args: Seq<DirectiveArg>) -> Seq<Option<Seq<char>>> {
    Seq::new(
        args.len(),
        |k: int|
            match path_setting(args[k]) {
                Some(text) => path_of(text),
                None => None,
            },
    )
}

/// What each of the paths reads as.
pub open spec fn path_texts(paths: Seq<Option<String>>) -> Seq<Option<Seq<char>>> {
    Seq::new(
        paths.len(),
        |k: int|
            match paths[k] {
                Some(path) => Some(path@),
                None => None,
            },
    )
}

/// Whether one of the entries sets a path that was not read as one.
pub open spec fn refused(args: Seq<DirectiveArg>, paths: Seq<Option<Seq<char>>>) -> bool {
    exists|k: int| 0 <= k < args.len() && #[trigger] path_setting(args[k]) is Some && paths[k] is None
}

/// The path of the last entry that gives a setting to `key`.
pub open spec fn last_path(
    args: Seq<DirectiveArg>,
    paths: Seq<Option<Seq<char>>>,
    key: Seq<char>,
) -> Option<Seq<char>>
    decreases args.len(),
{
    if args.len() == 0 {
        None
    } else if args.last().value_for(key) is Some {
        paths.last()
    } else {
        last_path(args.drop_last(), paths.drop_last(), key)
    }
}

/// What the entries of a validation directive come to, where `paths` holds
/// for each entry what its path was read as: one path that was not read
/// spoils the directive, a directive must name a validator, and of several
/// settings for the validator or for the error type the last one counts.
pub open spec fn validation(args: Seq<DirectiveArg>, paths: Seq<Option<Seq<char>>>) -> Result<
    (Seq<char>, Option<Seq<char>>),
    GenError,
> {
    if refused(args, paths) {
        Err(GenError::MalformedPath)
    } else {
        match last_path(args, paths, "validator"@) {
            None => Err(GenError::MissingValidator),
            Some(path) => Ok((path, last_path(args, paths, "error"@))),
        }
    }
}

/// The validator and the error type that the directives ask for.
pub open spec fn validator(attrs: Seq<Directive>, default: Seq<char>) -> Result<
    (Seq<char>, Option<Seq<char>>),
    GenError,
> {
    let lists = lists_named(attrs, "builder_validate"@);
    if lists.len() > 1 {
        Err(GenError::DuplicateValidator)
    } else if lists.len() == 0 {
        Ok((default, None))
    } else {
        validation(lists[0], paths_of(lists[0]))
    }
}

/// Settles what the entries of a validation directive come to, once each of
/// their paths has been read: `paths` holds, at the place of each entry, the
/// path that its setting was read as, or nothing where it was not read as a
/// path. The places of entries that set no path are not looked at.
pub fn validation_of(args: &Vec<DirectiveArg>, paths: &Vec<Option<String>>) -> (found: Result<
    (String, Option<String>),
    GenError,
>)
    requires
        paths@.len() == args@.len(),
    ensures
        match found {
            Ok((path, None)) => validation(args@, path_texts(paths@)) == Ok::<
                (Seq<char>, Option<Seq<char>>),
                GenError,
            >((path@, None)),
            Ok((path, Some(error))) => validation(args@, path_texts(paths@)) == Ok::<
                (Seq<char>, Option<Seq<char>>),
                GenError,
            >((path@, Some(error@))),
            Err(e) => validation(args@, path_texts(paths@)) == Err::<
                (Seq<char>, Option<Seq<char>>),
                GenError,
            >(e),
        },
{
    let ghost read = path_texts(paths@);
    let mut path: Option<String> = None;
    let mut error: Option<String> = None;
    let mut i: usize = 0;
    while i < args.len()
        invariant
            i <= args.len(),
            paths@.len() == args@.len(),
            read == path_texts(paths@),
            forall|k: int|
                0 <= k < i && #[trigger] path_setting(args@[k]) is Some ==> read[k] is Some,
            match path {
                Some(text) => last_path(args@.take(i as int), read.take(i as int), "validator"@)
                    == Some(text@),
                None => last_path(args@.take(i as int), read.take(i as int), "validator"@) is None,
            },
            match error {
                Some(text) => last_path(args@.take(i as int), read.take(i as int), "error"@)
                    == Some(text@),
                None => last_path(args@.take(i as int), read.take(i as int), "error"@) is None,
            },
        decreases args.len() - i,
    {
        proof {
            assert(args@.take(i + 1).drop_last() =~= args@.take(i as int));
            assert(read.take(i + 1).drop_last() =~= read.take(i as int));
            assert(read.take(i + 1).last() == read[i as int]);
            lemma_path_keys_differ();
        }
        match &args[i] {
            DirectiveArg::NameValue(name, literal) => {
                let first = text_is(name.as_str(), "validator");
                if first || text_is(name.as_str(), "error") {
                    match literal.as_setting() {
                        Some(_) => {
                            match &paths[i] {
                                None => {
                                    proof {
                                        assert(path_setting(args@[i as int]) is Some);
                                        assert(read[i as int] is None);
                                    }
                                    return Err(GenError::MalformedPath);
                                },
                                Some(written) => {
                                    if first {
                                        path = Some(written.clone());
                                    } else {
                                        error = Some(written.clone());
                                    }
                                },
                            }
                        },
                        None => {},
                    }
                }
            },
            _ => {},
        }
        i += 1;
    }
    proof {
        assert(args@.take(i as int) =~= args@);
        assert(read.take(i as int) =~= read);
        assert(!refused(args@, read));
    }
    match path {
        None => Err(GenError::MissingValidator),
        Some(text) => Ok((text, error)),
    }
}

/// Reads each path that the entries set: hands every setting for the
/// validator or the error type to the parser, but for those that hold a
/// character outside ASCII, which are no paths.
fn read_paths(args: &Vec<DirectiveArg>) -> (paths: Vec<Option<String>>)
    ensures
        paths@.len() == args@.len(),
        path_texts(paths@) == paths_of(args@),
{
    let mut paths: Vec<Option<String>> = Vec::new();
    let mut i: usize = 0;
    while i < args.len()
        invariant
            i <= args.len(),
            paths@.len() == i,
            forall|k: int| 0 <= k < i ==> path_texts(paths@)[k] == paths_of(args@)[k],
        decreases args.len() - i,
    {
        proof {
            lemma_path_keys_differ();
        }
        let ghost before = paths@;
        let read = match &args[i] {
            DirectiveArg::NameValue(name, literal) => {
                if text_is(name.as_str(), "validator") || text_is(name.as_str(), "error") {
                    match literal.as_setting() {
                        Some(text) => {
                            if text.as_str().is_ascii() {
                                parse_path(text.as_str())
                            } else {
                                None
                            }
                        },
                        None => None,
                    }
                } else {
                    None
                }
            },
            _ => None,
        };
        paths.push(read);
        proof {
            assert forall|k: int| 0 <= k < i + 1 implies path_texts(paths@)[k] == paths_of(
                args@,
            )[k] by {
                if k < i {
                    assert(paths@[k] == before[k]);
                    assert(path_texts(before)[k] == paths_of(args@)[k]);
                }
            }
        }
        i += 1;
    }
    proof {
        assert(path_texts(paths@) =~= paths_of(args@));
    }
    paths
}

/// Reads the validator and its error type from the directive
/// `builder_validate(validator = "..", error = "..")`. Without the directive
/// the validator is `default` and there is no error type. Both settings must
/// be well-formed paths, and they are handed on as the parser read them; a
/// setting with a character outside ASCII is refused as no path. A directive
/// must name a validator, and two such directives are refused.
pub fn get_validator(attrs: &Vec<Directive>, default: String) -> (found: Result<
    (String, Option<String>),
    GenError,
>)
    ensures
        match found {
            Ok((path, None)) => validator(attrs@, default@) == Ok::<
                (Seq<char>, Option<Seq<char>>),
                GenError,
            >((path@, None)),
            Ok((path, Some(error))) => validator(attrs@, default@) == Ok::<
                (Seq<char>, Option<Seq<char>>),
                GenError,
            >((path@, Some(error@))),
            Err(e) => validator(attrs@, default@) == Err::<
                (Seq<char>, Option<Seq<char>>),
                GenError,
            >(e),
        },
{
    let lists = select_lists(attrs, "builder_validate");
    let ghost found = lists@;
    match collect_most_one(lists, GenError::DuplicateValidator) {
        Err(e) => Err(e),
        Ok(None) => Ok((default, None)),
        Ok(Some(args)) => {
            assert(args@ == lists_named(attrs@, "builder_validate"@)[0]) by {
                assert(args == found[0]);
            }
            let paths = read_paths(args);
            validation_of(args, &paths)
        },
    }
}

/// The two keys of a validation directive are different texts.
pub proof fn lemma_path_keys_differ()
    ensures
        "validator"@ != "error"@,
{
    reveal_strlit("validator");
    reveal_strlit("error");
    assert("validator"@.len() == 9);
    assert("error"@.len() == 5);
}

} // verus!
