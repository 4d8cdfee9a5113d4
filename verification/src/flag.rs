//! Flag descriptors: the static definition of one typed command-line switch,
//! and the spec-level token grammar a flag occurrence obeys.

use vstd::prelude::*;

verus! {

/// The closed set of value types a flag can declare.
#[derive(PartialEq, Eq, Structural, Clone, Copy, Debug)]
pub enum FlagType {
    Bool,
    Int,
    Float,
    String,
    IntList,
    FloatList,
    StringList,
}

/// Static definition of one flag: its name, declared type, aliases in
/// declaration order, and an optional description.
///
/// The name is matched in long form (`--name`, `--name=value`), each alias in
/// short form (`-alias`).
#[derive(Clone, Debug)]
pub struct Flag {
    pub name: String,
    pub flag_type: FlagType,
    pub aliases: Vec<String>,
    pub description: Option<String>,
}

/// The long form of a flag name: `--name`.
pub open spec fn long_form(name: Seq<char>) -> Seq<char> {
    seq!['-', '-'] + name
}

/// The short form of a flag alias: `-alias`.
pub open spec fn short_form(alias: Seq<char>) -> Seq<char> {
    seq!['-'] + alias
}

/// Whether a token is the inline form `--name=value` (the value may be
/// empty).
pub open spec fn is_inline_form(t: Seq<char>, name: Seq<char>) -> bool {
    &&& t.len() >= name.len() + 3
    &&& t.subrange(0, name.len() as int + 2) == long_form(name)
    &&& t[name.len() as int + 2] == '='
}

/// The value carried by an inline token `--name=value`.
pub open spec fn inline_value(t: Seq<char>, name: Seq<char>) -> Seq<char> {
    t.subrange(name.len() as int + 3, t.len() as int)
}

impl Flag {
    /// Whether a token is a bare occurrence of this flag: exactly `--name`,
    /// or exactly `-alias` for one of the declared aliases.
    pub open spec fn bare_hit(&self, t: Seq<char>) -> bool {
        ||| t == long_form(self.name@)
        ||| exists|i: int|
            0 <= i < self.aliases@.len() && t == short_form(self.aliases@[i]@)
    }

    /// Whether a token is any occurrence of this flag: bare, or the inline
    /// form `--name=value`.
    pub open spec fn token_hit(&self, t: Seq<char>) -> bool {
        self.bare_hit(t) || is_inline_form(t, self.name@)
    }

    /// Whether the queried identifier selects this descriptor: it equals the
    /// name or one of the aliases.
    pub open spec fn ident_hit(&self, id: Seq<char>) -> bool {
        ||| self.name@ == id
        ||| exists|i: int| 0 <= i < self.aliases@.len() && self.aliases@[i]@ == id
    }

    /// A new flag of the given name and type, with no aliases and no
    /// description.
    pub fn new(name: &str, flag_type: FlagType) -> (r: Flag)
        ensures
            r.name@ == name@,
            r.flag_type == flag_type,
            r.aliases@ == Seq::<String>::empty(),
            r.description is None,
    {
        Flag { name: name.to_owned(), flag_type, aliases: Vec::new(), description: None }
    }

    /// The same flag with its description set.
    pub fn description(self, description: &str) -> (r: Flag)
        ensures
            r.name == self.name,
            r.flag_type == self.flag_type,
            r.aliases == self.aliases,
            r.description matches Some(d) && d@ == description@,
    {
        Flag { description: Some(description.to_owned()), ..self }
    }

    /// The same flag with one alias appended after those already declared.
    pub fn alias(self, alias: &str) -> (r: Flag)
        ensures
            r.name == self.name,
            r.flag_type == self.flag_type,
            r.description == self.description,
            r.aliases@.len() == self.aliases@.len() + 1,
            r.aliases@.drop_last() == self.aliases@,
            r.aliases@.last()@ == alias@,
    {
        let mut aliases = self.aliases;
        aliases.push(alias.to_owned());
        Flag { aliases, ..self }
    }
}

/// The least index of a descriptor whose name or alias equals the queried
/// identifier, if any: descriptor lookup is first-match-wins in declaration
/// order.
pub open spec fn find_flag(flags: Seq<Flag>, id: Seq<char>) -> Option<int>
    decreases flags.len(),
{
    if flags.len() == 0 {
        None
    } else if flags[0].ident_hit(id) {
        Some(0)
    } else {
        match find_flag(flags.drop_first(), id) {
            Some(i) => Some(i + 1),
            None => None,
        }
    }
}

/// `find_flag` returns exactly the least matching index.
pub proof fn lemma_find_flag(flags: Seq<Flag>, id: Seq<char>)
    ensures
        match find_flag(flags, id) {
            Some(i) => {
                &&& 0 <= i < flags.len()
                &&& flags[i].ident_hit(id)
                &&& forall|j: int| 0 <= j < i ==> !flags[j].ident_hit(id)
            },
            None => forall|j: int| 0 <= j < flags.len() ==> !flags[j].ident_hit(id),
        },
    decreases flags.len(),
{
    if flags.len() > 0 {
        lemma_find_flag(flags.drop_first(), id);
        assert forall|j: int| 1 <= j < flags.len() implies flags[j] == flags.drop_first()[j - 1] by {
        }
    }
}

} // verus!
