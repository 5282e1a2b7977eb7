//! The command registry: a fixed catalog of command names, each mapping to an
//! ordered list of argument specifications. The registry is built once at
//! startup and read thereafter; `register_command` replaces the entry for a
//! name that is already present, so the last registration wins.

use vstd::prelude::*;
use vstd::pervasive::VecAdditionalExecFns;
use vstd::string::{StrSliceExecFns, StringExecFns};

use crate::text::{str_equal, str_is_prefix};

verus! {

/// Argument type tag for a command argument: decides how a raw token is
/// converted and what a conversion failure means.
#[derive(Debug, Copy, Clone, PartialEq, Eq, Structural)]
pub enum ArgType {
    String,
    Number,
    Boolean,
}

/// One argument of a command: its name, whether it must be supplied, and how
/// its token is converted.
#[derive(Debug, Clone)]
pub struct ArgSpec {
    pub name: String,
    pub required: bool,
    pub arg_type: ArgType,
}

/// The mathematical value of an [`ArgSpec`].
#[verifier::ext_equal]
pub struct ArgSpecV {
    pub name: Seq<char>,
    pub required: bool,
    pub arg_type: ArgType,
}

impl View for ArgSpec {
    type V = ArgSpecV;

    open spec fn view(&self) -> ArgSpecV {
        ArgSpecV { name: self.name@, required: self.required, arg_type: self.arg_type }
    }
}

impl ArgSpec {
    /// Builds one argument specification.
    pub fn new(name: &str, required: bool, arg_type: ArgType) -> (r: Self)
        ensures
            r@ == (ArgSpecV { name: name@, required, arg_type }),
    {
        ArgSpec { name: name.to_owned(), required, arg_type }
    }
}

/// One registry entry: a command name and its ordered argument specification.
#[derive(Debug, Clone)]
pub struct CommandEntry {
    pub name: String,
    pub args: Vec<ArgSpec>,
}

/// The mathematical value of a [`CommandEntry`].
#[verifier::ext_equal]
pub struct CommandEntryV {
    pub name: Seq<char>,
    pub args: Seq<ArgSpecV>,
}

impl View for CommandEntry {
    type V = CommandEntryV;

    open spec fn view(&self) -> CommandEntryV {
        CommandEntryV { name: self.name@, args: self.args@.map_values(|a: ArgSpec| a@) }
    }
}

/// The index of the first entry with the given name, or -1 when the name is
/// not registered.
pub open spec fn find_first(entries: Seq<CommandEntryV>, name: Seq<char>) -> int
    decreases entries.len(),
{
    if entries.len() == 0 {
        -1
    } else if entries[0].name == name {
        0
    } else {
        let r = find_first(entries.drop_first(), name);
        if r == -1 {
            -1
        } else {
            r + 1
        }
    }
}

/// A pure read of the registry: the argument specification registered for
/// `name`, if any.
pub open spec fn spec_lookup(entries: Seq<CommandEntryV>, name: Seq<char>) -> Option<Seq<ArgSpecV>> {
    let i = find_first(entries, name);
    if i == -1 {
        None
    } else {
        Some(entries[i].args)
    }
}

/// The registry after registering `name` with `args`: the first entry for
/// `name` is replaced, or a new entry is appended when the name is new.
pub open spec fn spec_register(
    entries: Seq<CommandEntryV>,
    name: Seq<char>,
    args: Seq<ArgSpecV>,
) -> Seq<CommandEntryV> {
    let i = find_first(entries, name);
    let e = CommandEntryV { name, args };
    if i == -1 {
        entries.push(e)
    } else {
        entries.update(i, e)
    }
}

/// How many of the given argument specifications are required.
pub open spec fn required_count(args: Seq<ArgSpecV>) -> int
    decreases args.len(),
{
    if args.len() == 0 {
        0int
    } else {
        required_count(args.drop_last()) + if args.last().required {
            1int
        } else {
            0int
        }
    }
}

pub proof fn lemma_find_first_props(entries: Seq<CommandEntryV>, name: Seq<char>)
    ensures
        -1 <= find_first(entries, name) < entries.len(),
        find_first(entries, name) == -1 ==> forall|j: int|
            0 <= j < entries.len() ==> entries[j].name != name,
        find_first(entries, name) != -1 ==> {
            let i = find_first(entries, name);
            &&& entries[i].name == name
            &&& forall|j: int| 0 <= j < i ==> entries[j].name != name
        },
    decreases entries.len(),
{
    if entries.len() == 0 {
    } else if entries[0].name == name {
    } else {
        lemma_find_first_props(entries.drop_first(), name);
        let r = find_first(entries.drop_first(), name);
        if r == -1 {
            assert forall|j: int| 0 <= j < entries.len() implies entries[j].name != name by {
                if j > 0 {
                    assert(entries.drop_first()[j - 1] == entries[j]);
                }
            }
        } else {
            assert(entries.drop_first()[r] == entries[r + 1]);
            assert forall|j: int| 0 <= j < r + 1 implies entries[j].name != name by {
                if j > 0 {
                    assert(entries.drop_first()[j - 1] == entries[j]);
                }
            }
        }
    }
}

pub proof fn lemma_find_first_is(entries: Seq<CommandEntryV>, name: Seq<char>, i: int)
    requires
        0 <= i < entries.len(),
        entries[i].name == name,
        forall|j: int| 0 <= j < i ==> entries[j].name != name,
    ensures
        find_first(entries, name) == i,
    decreases entries.len(),
{
    if i == 0 {
    } else {
        assert(entries[0].name != name);
        assert(entries.drop_first()[i - 1] == entries[i]);
        assert forall|j: int| 0 <= j < i - 1 implies entries.drop_first()[j].name != name by {
            assert(entries.drop_first()[j] == entries[j + 1]);
        }
        lemma_find_first_is(entries.drop_first(), name, i - 1);
    }
}

pub proof fn lemma_find_first_none(entries: Seq<CommandEntryV>, name: Seq<char>)
    requires
        forall|j: int| 0 <= j < entries.len() ==> entries[j].name != name,
    ensures
        find_first(entries, name) == -1,
    decreases entries.len(),
{
    if entries.len() == 0 {
    } else {
        assert forall|j: int| 0 <= j < entries.drop_first().len() implies entries.drop_first()[j].name
            != name by {
            assert(entries.drop_first()[j] == entries[j + 1]);
        }
        lemma_find_first_none(entries.drop_first(), name);
    }
}

/// Law: looking a command up right after registering it yields exactly the
/// argument specification that was registered, so in particular the
/// required-argument arity of the registration is neither lost nor gained.
pub proof fn lemma_register_then_lookup(
    entries: Seq<CommandEntryV>,
    name: Seq<char>,
    args: Seq<ArgSpecV>,
)
    ensures
        spec_lookup(spec_register(entries, name, args), name) == Some(args),
        required_count(spec_lookup(spec_register(entries, name, args), name)->Some_0)
            == required_count(args),
{
    lemma_find_first_props(entries, name);
    let f = find_first(entries, name);
    let e = CommandEntryV { name, args };
    if f == -1 {
        let pushed = entries.push(e);
        assert(pushed[entries.len() as int] == e);
        assert forall|j: int| 0 <= j < entries.len() implies pushed[j].name != name by {
            assert(pushed[j] == entries[j]);
        }
        lemma_find_first_is(pushed, name, entries.len() as int);
    } else {
        let updated = entries.update(f, e);
        assert forall|j: int| 0 <= j < f implies updated[j].name != name by {
            assert(updated[j] == entries[j]);
        }
        lemma_find_first_is(updated, name, f);
    }
}

/// Law: registering one name leaves what `lookup` returns for every other
/// name unchanged.
pub proof fn lemma_register_preserves_others(
    entries: Seq<CommandEntryV>,
    name: Seq<char>,
    args: Seq<ArgSpecV>,
    other: Seq<char>,
)
    requires
        other != name,
    ensures
        spec_lookup(spec_register(entries, name, args), other) == spec_lookup(entries, other),
{
    lemma_find_first_props(entries, name);
    lemma_find_first_props(entries, other);
    let f = find_first(entries, name);
    let g = find_first(entries, other);
    let e = CommandEntryV { name, args };
    let after = spec_register(entries, name, args);
    if g == -1 {
        assert forall|j: int| 0 <= j < after.len() implies after[j].name != other by {
            if f == -1 {
                if j < entries.len() {
                    assert(after[j] == entries[j]);
                }
            } else {
                if j != f {
                    assert(after[j] == entries[j]);
                }
            }
        }
        lemma_find_first_none(after, other);
    } else {
        assert(g != f) by {
            assert(entries[g].name == other);
        }
        assert(after[g] == entries[g]);
        assert forall|j: int| 0 <= j < g implies after[j].name != other by {
            if f == -1 || j != f {
                assert(after[j] == entries[j]);
            }
        }
        lemma_find_first_is(after, other, g);
    }
}

/// The registry: a catalog of command names, each with its ordered argument
/// specification.
#[derive(Clone)]
pub struct Commands {
    pub commands: Vec<CommandEntry>,
}

impl View for Commands {
    type V = Seq<CommandEntryV>;

    open spec fn view(&self) -> Seq<CommandEntryV> {
        self.commands@.map_values(|e: CommandEntry| e@)
    }
}

impl Commands {
    /// Builds the registry and populates it exhaustively with the fixed
    /// command catalog, before any input is accepted.
    pub fn new() -> (r: Self)
        ensures
            r@ == spec_catalog(),
    {
        let mut parser = Self { commands: Vec::new() };
        assert(parser@ =~= Seq::<CommandEntryV>::empty());
        parser.register_commands();
        parser
    }

    /// Inserts or replaces the argument specification for `name`.
    pub fn register_command(&mut self, name: &str, args: Vec<ArgSpec>)
        ensures
            final(self)@ == spec_register(old(self)@, name@, args@.map_values(|a: ArgSpec| a@)),
    {
        let ghost entries = self@;
        let ghost argsv = args@.map_values(|a: ArgSpec| a@);
        let idx = self.find_index(name);
        proof {
            lemma_find_first_props(entries, name@);
        }
        assert(self@.len() == self.commands@.len());
        let entry = CommandEntry { name: name.to_owned(), args };
        assert(entry@ =~~= (CommandEntryV { name: name@, args: argsv }));
        let ghost ev = entry@;
        match idx {
            Some(i) => {
                self.commands.set(i, entry);
                assert(self@.len() == self.commands@.len());
                assert forall|j: int| 0 <= j < entries.len() && j != i as int implies self@[j]
                    == entries[j] by {
                    assert(self@[j] == self.commands@[j]@);
                }
                assert(self@[i as int] == self.commands@[i as int]@);
                assert(self@ =~~= entries.update(i as int, ev));
            },
            None => {
                self.commands.push(entry);
                assert(self@.len() == self.commands@.len());
                assert forall|j: int| 0 <= j < entries.len() implies self@[j] == entries[j] by {
                    assert(self@[j] == self.commands@[j]@);
                }
                assert(self@[entries.len() as int] == self.commands@[entries.len() as int]@);
                assert(self@ =~~= entries.push(ev));
            },
        }
    }

    /// The position of the entry for `name`, if the name is registered.
    fn find_index(&self, name: &str) -> (r: Option<usize>)
        ensures
            match r {
                Some(i) => find_first(self@, name@) == i as int,
                None => find_first(self@, name@) == -1,
            },
    {
        let n = self.commands.len();
        let mut i: usize = 0;
        while i < n
            invariant
                n == self.commands.len(),
                i <= n,
                self@.len() == n,
                forall|j: int| 0 <= j < i ==> self@[j].name != name@,
            decreases n - i,
        {
            if str_equal(self.commands[i].name.as_str(), name) {
                proof {
                    lemma_find_first_is(self@, name@, i as int);
                }
                return Some(i);
            }
            i += 1;
        }
        proof {
            lemma_find_first_none(self@, name@);
        }
        None
    }

    /// A pure read: the argument specification registered for `name`.
    pub fn lookup(&self, name: &str) -> (r: Option<&Vec<ArgSpec>>)
        ensures
            match r {
                Some(a) => spec_lookup(self@, name@) == Some(a@.map_values(|x: ArgSpec| x@)),
                None => spec_lookup(self@, name@) is None,
            },
    {
        let n = self.commands.len();
        let mut i: usize = 0;
        while i < n
            invariant
                n == self.commands.len(),
                i <= n,
                self@.len() == n,
                forall|j: int| 0 <= j < i ==> self@[j].name != name@,
            decreases n - i,
        {
            if str_equal(self.commands[i].name.as_str(), name) {
                proof {
                    lemma_find_first_is(self@, name@, i as int);
                }
                return Some(&self.commands[i].args);
            }
            i += 1;
        }
        proof {
            lemma_find_first_none(self@, name@);
        }
        None
    }

    fn register_commands(&mut self)
        ensures
            final(self)@ == spec_catalog_from(old(self)@),
    {
        self.register_command("command-list", no_args());

        self.register_command("help", no_args());

        self.register_command("iface-list", no_args());

        self.register_command("iface-stat", iface_stat_args());

        self.register_command("pcap-file", pcap_file_args());

        self.register_command("pcap-file-continuous", pcap_file_continuous_args());

        self.register_command("memcap-list", no_args());
        self.register_command("memcap-show", memcap_show_args());

        self.register_command("memcap-set", memcap_set_args());

        self.register_command("uptime", no_args());

        self.register_command("version", no_args());
        self.register_command("running-mode", no_args());
        self.register_command("capture-mode", no_args());
        self.register_command("reload-rules", no_args());
        self.register_command("ruleset-reload-nonblocking", no_args());
        self.register_command("ruleset-stats", no_args());
    }
}

fn no_args() -> (r: Vec<ArgSpec>)
    ensures
        r@.map_values(|a: ArgSpec| a@) == Seq::<ArgSpecV>::empty(),
{
    let r: Vec<ArgSpec> = Vec::new();
    assert(r@.map_values(|a: ArgSpec| a@) =~~= Seq::<ArgSpecV>::empty());
    r
}

fn iface_stat_args() -> (r: Vec<ArgSpec>)
    ensures
        r@.map_values(|a: ArgSpec| a@) == catalog_iface_stat_args(),
{
    let r = vec![ArgSpec::new("iface", true, ArgType::String)];
    assert(r@.map_values(|a: ArgSpec| a@) =~~= catalog_iface_stat_args());
    r
}

fn pcap_file_args() -> (r: Vec<ArgSpec>)
    ensures
        r@.map_values(|a: ArgSpec| a@) == catalog_pcap_file_args(),
{
    let r = vec![
        ArgSpec::new("filename", true, ArgType::String),
        ArgSpec::new("output-dir", true, ArgType::String),
        ArgSpec::new("tenant", false, ArgType::Number),
        ArgSpec::new("continuous", false, ArgType::Boolean),
        ArgSpec::new("delete-when-done", false, ArgType::Boolean),
    ];
    assert(r@.map_values(|a: ArgSpec| a@) =~~= catalog_pcap_file_args());
    r
}

fn pcap_file_continuous_args() -> (r: Vec<ArgSpec>)
    ensures
        r@.map_values(|a: ArgSpec| a@) == catalog_pcap_file_continuous_args(),
{
    let r = vec![
        ArgSpec::new("filename", true, ArgType::String),
        ArgSpec::new("output-dir", true, ArgType::String),
        ArgSpec::new("continuous", true, ArgType::Boolean),
    ];
    assert(r@.map_values(|a: ArgSpec| a@) =~~= catalog_pcap_file_continuous_args());
    r
}

fn memcap_show_args() -> (r: Vec<ArgSpec>)
    ensures
        r@.map_values(|a: ArgSpec| a@) == catalog_memcap_show_args(),
{
    let r = vec![ArgSpec::new("config", true, ArgType::String)];
    assert(r@.map_values(|a: ArgSpec| a@) =~~= catalog_memcap_show_args());
    r
}

fn memcap_set_args() -> (r: Vec<ArgSpec>)
    ensures
        r@.map_values(|a: ArgSpec| a@) == catalog_memcap_set_args(),
{
    let r = vec![
        ArgSpec::new("config", true, ArgType::String),
        ArgSpec::new("memcap", true, ArgType::String),
    ];
    assert(r@.map_values(|a: ArgSpec| a@) =~~= catalog_memcap_set_args());
    r
}

/// The argument specification of the `iface-stat` command.
pub open spec fn catalog_iface_stat_args() -> Seq<ArgSpecV> {
    seq![ArgSpecV { name: "iface"@, required: true, arg_type: ArgType::String }]
}

/// The argument specification of the `pcap-file` command.
pub open spec fn catalog_pcap_file_args() -> Seq<ArgSpecV> {
    seq![
        ArgSpecV { name: "filename"@, required: true, arg_type: ArgType::String },
        ArgSpecV { name: "output-dir"@, required: true, arg_type: ArgType::String },
        ArgSpecV { name: "tenant"@, required: false, arg_type: ArgType::Number },
        ArgSpecV { name: "continuous"@, required: false, arg_type: ArgType::Boolean },
        ArgSpecV { name: "delete-when-done"@, required: false, arg_type: ArgType::Boolean },
    ]
}

/// The argument specification of the `pcap-file-continuous` command.
pub open spec fn catalog_pcap_file_continuous_args() -> Seq<ArgSpecV> {
    seq![
        ArgSpecV { name: "filename"@, required: true, arg_type: ArgType::String },
        ArgSpecV { name: "output-dir"@, required: true, arg_type: ArgType::String },
        ArgSpecV { name: "continuous"@, required: true, arg_type: ArgType::Boolean },
    ]
}

/// The argument specification of the `memcap-show` command.
pub open spec fn catalog_memcap_show_args() -> Seq<ArgSpecV> {
    seq![ArgSpecV { name: "config"@, required: true, arg_type: ArgType::String }]
}

/// The argument specification of the `memcap-set` command.
pub open spec fn catalog_memcap_set_args() -> Seq<ArgSpecV> {
    seq![
        ArgSpecV { name: "config"@, required: true, arg_type: ArgType::String },
        ArgSpecV { name: "memcap"@, required: true, arg_type: ArgType::String },
    ]
}

/// The fixed command catalog registered on top of `entries`, in registration
/// order.
pub open spec fn spec_catalog_from(entries: Seq<CommandEntryV>) -> Seq<CommandEntryV> {
    let e01 = spec_register(entries, "command-list"@, Seq::empty());
    let e02 = spec_register(e01, "help"@, Seq::empty());
    let e03 = spec_register(e02, "iface-list"@, Seq::empty());
    let e04 = spec_register(e03, "iface-stat"@, catalog_iface_stat_args());
    let e05 = spec_register(e04, "pcap-file"@, catalog_pcap_file_args());
    let e06 = spec_register(e05, "pcap-file-continuous"@, catalog_pcap_file_continuous_args());
    let e07 = spec_register(e06, "memcap-list"@, Seq::empty());
    let e08 = spec_register(e07, "memcap-show"@, catalog_memcap_show_args());
    let e09 = spec_register(e08, "memcap-set"@, catalog_memcap_set_args());
    let e10 = spec_register(e09, "uptime"@, Seq::empty());
    let e11 = spec_register(e10, "version"@, Seq::empty());
    let e12 = spec_register(e11, "running-mode"@, Seq::empty());
    let e13 = spec_register(e12, "capture-mode"@, Seq::empty());
    let e14 = spec_register(e13, "reload-rules"@, Seq::empty());
    let e15 = spec_register(e14, "ruleset-reload-nonblocking"@, Seq::empty());
    spec_register(e15, "ruleset-stats"@, Seq::empty())
}

/// The fixed command catalog that [`Commands::new`] builds.
pub open spec fn spec_catalog() -> Seq<CommandEntryV> {
    spec_catalog_from(Seq::empty())
}

/// Law: in the registry that [`Commands::new`] builds, `iface-stat` is
/// registered with exactly its cataloged argument specification: one
/// required argument, as registered, neither lost nor gained.
pub proof fn lemma_catalog_lookup_iface_stat()
    ensures
        spec_lookup(spec_catalog(), "iface-stat"@) == Some(catalog_iface_stat_args()),
        required_count(catalog_iface_stat_args()) == 1,
{
    reveal_strlit("iface-stat");
    reveal_strlit("pcap-file");
    reveal_strlit("pcap-file-continuous");
    reveal_strlit("memcap-list");
    reveal_strlit("memcap-show");
    reveal_strlit("memcap-set");
    reveal_strlit("uptime");
    reveal_strlit("version");
    reveal_strlit("running-mode");
    reveal_strlit("capture-mode");
    reveal_strlit("reload-rules");
    reveal_strlit("ruleset-reload-nonblocking");
    reveal_strlit("ruleset-stats");
    let name = "iface-stat"@;
    let args = catalog_iface_stat_args();
    let e01 = spec_register(Seq::empty(), "command-list"@, Seq::empty());
    let e02 = spec_register(e01, "help"@, Seq::empty());
    let e03 = spec_register(e02, "iface-list"@, Seq::empty());
    let e04 = spec_register(e03, name, args);
    lemma_register_then_lookup(e03, name, args);
    let e05 = spec_register(e04, "pcap-file"@, catalog_pcap_file_args());
    assert(name != "pcap-file"@) by {
        assert(name.len() == 10 && "pcap-file"@.len() == 9);
    }
    lemma_register_preserves_others(e04, "pcap-file"@, catalog_pcap_file_args(), name);
    let e06 = spec_register(e05, "pcap-file-continuous"@, catalog_pcap_file_continuous_args());
    assert(name != "pcap-file-continuous"@) by {
        assert("pcap-file-continuous"@.len() == 20);
    }
    lemma_register_preserves_others(
        e05,
        "pcap-file-continuous"@,
        catalog_pcap_file_continuous_args(),
        name,
    );
    let e07 = spec_register(e06, "memcap-list"@, Seq::empty());
    assert(name != "memcap-list"@) by {
        assert("memcap-list"@.len() == 11);
    }
    lemma_register_preserves_others(e06, "memcap-list"@, Seq::empty(), name);
    let e08 = spec_register(e07, "memcap-show"@, catalog_memcap_show_args());
    assert(name != "memcap-show"@) by {
        assert("memcap-show"@.len() == 11);
    }
    lemma_register_preserves_others(e07, "memcap-show"@, catalog_memcap_show_args(), name);
    let e09 = spec_register(e08, "memcap-set"@, catalog_memcap_set_args());
    assert(name != "memcap-set"@) by {
        assert(name[0] == 'i' && "memcap-set"@[0] == 'm');
    }
    lemma_register_preserves_others(e08, "memcap-set"@, catalog_memcap_set_args(), name);
    let e10 = spec_register(e09, "uptime"@, Seq::empty());
    assert(name != "uptime"@) by {
        assert("uptime"@.len() == 6);
    }
    lemma_register_preserves_others(e09, "uptime"@, Seq::empty(), name);
    let e11 = spec_register(e10, "version"@, Seq::empty());
    assert(name != "version"@) by {
        assert("version"@.len() == 7);
    }
    lemma_register_preserves_others(e10, "version"@, Seq::empty(), name);
    let e12 = spec_register(e11, "running-mode"@, Seq::empty());
    assert(name != "running-mode"@) by {
        assert("running-mode"@.len() == 12);
    }
    lemma_register_preserves_others(e11, "running-mode"@, Seq::empty(), name);
    let e13 = spec_register(e12, "capture-mode"@, Seq::empty());
    assert(name != "capture-mode"@) by {
        assert("capture-mode"@.len() == 12);
    }
    lemma_register_preserves_others(e12, "capture-mode"@, Seq::empty(), name);
    let e14 = spec_register(e13, "reload-rules"@, Seq::empty());
    assert(name != "reload-rules"@) by {
        assert("reload-rules"@.len() == 12);
    }
    lemma_register_preserves_others(e13, "reload-rules"@, Seq::empty(), name);
    let e15 = spec_register(e14, "ruleset-reload-nonblocking"@, Seq::empty());
    assert(name != "ruleset-reload-nonblocking"@) by {
        assert("ruleset-reload-nonblocking"@.len() == 26);
    }
    lemma_register_preserves_others(e14, "ruleset-reload-nonblocking"@, Seq::empty(), name);
    assert(name != "ruleset-stats"@) by {
        assert("ruleset-stats"@.len() == 13);
    }
    lemma_register_preserves_others(e15, "ruleset-stats"@, Seq::empty(), name);
    assert(spec_catalog() == spec_register(e15, "ruleset-stats"@, Seq::empty()));
    assert(required_count(args.drop_last()) == 0) by {
        assert(args.drop_last() =~~= Seq::<ArgSpecV>::empty());
    }
}

/// The completion candidates the registry offers for a partly typed line: on
/// an empty line every command name, while a command name is being typed the
/// names it is a prefix of, and nothing once the line has reached its
/// arguments.
pub open spec fn spec_completions(entries: Seq<CommandEntryV>, line: Seq<char>) -> Seq<Seq<char>> {
    if line.len() == 0 {
        entries.map_values(|e: CommandEntryV| e.name)
    } else if exists|k: int| 0 <= k < line.len() && line[k] == ' ' {
        Seq::empty()
    } else {
        matching_names(entries, line)
    }
}

/// The names among `entries` that `line` is a prefix of, in registry order.
pub open spec fn matching_names(entries: Seq<CommandEntryV>, line: Seq<char>) -> Seq<Seq<char>>
    decreases entries.len(),
{
    if entries.len() == 0 {
        Seq::empty()
    } else {
        matching_names(entries.drop_last(), line) + if line.is_prefix_of(entries.last().name) {
            seq![entries.last().name]
        } else {
            Seq::empty()
        }
    }
}

impl Commands {
    /// The completion candidates for a partly typed line, as
    /// [`spec_completions`] describes them.
    pub fn completions(&self, line: &str) -> (r: Vec<String>)
        ensures
            r@.map_values(|t: String| t@) == spec_completions(self@, line@),
    {
        let mut out: Vec<String> = Vec::new();
        let llen = line.unicode_len();
        if llen == 0 {
            let n = self.commands.len();
            let mut i: usize = 0;
            while i < n
                invariant
                    n == self.commands.len(),
                    i <= n,
                    self@.len() == n,
                    out@.map_values(|t: String| t@) == self@.take(i as int).map_values(
                        |e: CommandEntryV| e.name,
                    ),
                decreases n - i,
            {
                let nm = self.commands[i].name.clone();
                let ghost gn = nm@;
                let ghost prev = out@;
                proof {
                    assert(prev.map_values(|t: String| t@).len() == prev.len());
                    assert(self@.take(i as int).map_values(|e: CommandEntryV| e.name).len()
                        == i as int);
                    assert(self@[i as int] == self.commands@[i as int]@);
                    prev.lemma_push_map_commute(|t: String| t@, nm);
                    self@.lemma_map_take_succ(|e: CommandEntryV| e.name, i as int);
                }
                out.push(nm);
                assert(out@.map_values(|t: String| t@) == self@.take(i + 1int).map_values(
                    |e: CommandEntryV| e.name,
                ));
                i += 1;
            }
            assert(self@.take(n as int) =~~= self@);
            return out;
        }
        let mut k: usize = 0;
        while k < llen
            invariant
                llen == line@.len(),
                k <= llen,
                out@.len() == 0,
                forall|j: int| 0 <= j < k ==> line@[j] != ' ',
            decreases llen - k,
        {
            if line.get_char(k) == ' ' {
                assert(line@[k as int] == ' ');
                assert(out@.map_values(|t: String| t@).len() == out@.len());
                assert(out@.map_values(|t: String| t@) =~~= Seq::<Seq<char>>::empty());
                return out;
            }
            k += 1;
        }
        let n = self.commands.len();
        let mut i: usize = 0;
        while i < n
            invariant
                n == self.commands.len(),
                i <= n,
                self@.len() == n,
                llen == line@.len(),
                llen > 0,
                forall|j: int| 0 <= j < llen ==> line@[j] != ' ',
                out@.map_values(|t: String| t@) == matching_names(self@.take(i as int), line@),
            decreases n - i,
        {
            proof {
                assert(out@.map_values(|t: String| t@).len() == out@.len());
                assert(self@.take(i + 1int).drop_last() =~~= self@.take(i as int));
                assert(self@.take(i + 1int).last() == self@[i as int]);
            }
            if str_is_prefix(line, self.commands[i].name.as_str()) {
                out.push(self.commands[i].name.clone());
            }
            assert(out@.map_values(|t: String| t@).len() == out@.len());
            assert(out@.map_values(|t: String| t@) =~~= matching_names(
                self@.take(i + 1int),
                line@,
            ));
            i += 1;
        }
        assert(self@.take(n as int) =~~= self@);
        out
    }
}

} // verus!
