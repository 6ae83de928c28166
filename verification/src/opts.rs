//! The option schema registry and the match-set produced by the parser.

use vstd::prelude::*;

use crate::text::str_eq;

verus! {

/// One recognized option: its canonical short and long forms, whether it
/// requires a value, a value hint shown in usage lines, and a description.
pub struct OptDef {
    pub short: String,
    pub long: String,
    pub hint: String,
    pub desc: String,
    pub takes_value: bool,
}

/// Mathematical image of an option declaration.
pub struct OptDefV {
    pub short: Seq<char>,
    pub long: Seq<char>,
    pub hint: Seq<char>,
    pub desc: Seq<char>,
    pub takes_value: bool,
}

impl View for OptDef {
    type V = OptDefV;

    open spec fn view(&self) -> OptDefV {
        OptDefV {
            short: self.short@,
            long: self.long@,
            hint: self.hint@,
            desc: self.desc@,
            takes_value: self.takes_value,
        }
    }
}

impl DeepView for OptDef {
    type V = OptDefV;

    open spec fn deep_view(&self) -> OptDefV {
        self.view()
    }
}

/// The complete set of recognized options, in registry order.
pub open spec fn the_schema() -> Seq<OptDefV> {
    seq![
        OptDefV {
            short: "t"@,
            long: "tick-rate"@,
            hint: "<ms>"@,
            desc: "set the tick rate of the terminal [default: 250]"@,
            takes_value: true,
        },
        OptDefV {
            short: "D"@,
            long: "docs"@,
            hint: "<path>"@,
            desc: "set the path of the kernel documentation"@,
            takes_value: true,
        },
        OptDefV {
            short: "s"@,
            long: "section"@,
            hint: "<section>"@,
            desc: "set the section to filter"@,
            takes_value: true,
        },
        OptDefV {
            short: "q"@,
            long: "query"@,
            hint: "<query>"@,
            desc: "set the query to search"@,
            takes_value: true,
        },
        OptDefV {
            short: "n"@,
            long: "no-docs"@,
            hint: ""@,
            desc: "do not show the kernel documentation"@,
            takes_value: false,
        },
        OptDefV {
            short: "h"@,
            long: "help"@,
            hint: ""@,
            desc: "display this help and exit"@,
            takes_value: false,
        },
        OptDefV {
            short: "V"@,
            long: "version"@,
            hint: ""@,
            desc: "output version information and exit"@,
            takes_value: false,
        },
    ]
}

/// An option name as it occurs on the command line: a single short
/// character, or a long name.
pub enum NameV {
    Short(char),
    Long(Seq<char>),
}

/// A one-character ASCII name is a short form; anything else is long.
pub open spec fn name_of(s: Seq<char>) -> NameV {
    if s.len() == 1 && (s[0] as int) < 128 {
        NameV::Short(s[0])
    } else {
        NameV::Long(s)
    }
}

/// The string under which a name is reported in error messages.
pub open spec fn display_name(nm: NameV) -> Seq<char> {
    match nm {
        NameV::Short(c) => seq![c],
        NameV::Long(s) => s,
    }
}

/// Whether an option declaration answers to the given name.
pub open spec fn opt_has_name(o: OptDefV, nm: NameV) -> bool {
    match nm {
        NameV::Short(c) => o.short == seq![c],
        NameV::Long(s) => o.long == s,
    }
}

/// The index of the first option answering to the given name, if any.
pub open spec fn find_name(opts: Seq<OptDefV>, nm: NameV) -> Option<int>
    decreases opts.len(),
{
    if opts.len() == 0 {
        None
    } else if opt_has_name(opts[0], nm) {
        Some(0)
    } else {
        match find_name(opts.drop_first(), nm) {
            Some(i) => Some(i + 1),
            None => None,
        }
    }
}

/// `find_name` answers `None` exactly when no option answers to the name,
/// and otherwise an index in range whose option answers to it.
pub proof fn lemma_find_name(opts: Seq<OptDefV>, nm: NameV)
    ensures
        find_name(opts, nm) is None <==> (forall|j: int|
            0 <= j < opts.len() ==> !opt_has_name(#[trigger] opts[j], nm)),
        find_name(opts, nm) matches Some(i) ==> 0 <= i < opts.len() && opt_has_name(opts[i], nm),
    decreases opts.len(),
{
    if opts.len() > 0 && !opt_has_name(opts[0], nm) {
        lemma_find_name(opts.drop_first(), nm);
        let rest = opts.drop_first();
        assert(forall|j: int| 1 <= j < opts.len() ==> opts[j] == #[trigger] rest[j - 1]);
        if find_name(opts, nm) is None {
            assert forall|j: int| 0 <= j < opts.len() implies !opt_has_name(
                #[trigger] opts[j],
                nm,
            ) by {
                if j >= 1 {
                    assert(!opt_has_name(rest[j - 1], nm));
                }
            }
        }
        if forall|j: int| 0 <= j < opts.len() ==> !opt_has_name(#[trigger] opts[j], nm) {
            assert(forall|j: int|
                0 <= j < rest.len() ==> !opt_has_name(#[trigger] rest[j], nm));
            assert(find_name(rest, nm) is None);
        }
    }
}

/// The first index whose option answers to the name is what `find_name`
/// returns.
pub proof fn lemma_find_name_first(opts: Seq<OptDefV>, nm: NameV, i: int)
    requires
        0 <= i < opts.len(),
        opt_has_name(opts[i], nm),
        forall|j: int| 0 <= j < i ==> !opt_has_name(#[trigger] opts[j], nm),
    ensures
        find_name(opts, nm) == Some(i),
    decreases opts.len(),
{
    if i > 0 {
        lemma_find_name_first(opts.drop_first(), nm, i - 1);
    }
}

/// Finds the first option answering to `name`, dispatching a
/// one-character ASCII name to the short forms and any other name to the
/// long forms.
pub fn find_opt(opts: &Vec<OptDef>, name: &str) -> (r: Option<usize>)
    ensures
        r is Some <==> find_name(opts.deep_view(), name_of(name@)) is Some,
        r matches Some(u) ==> find_name(opts.deep_view(), name_of(name@)) == Some(u as int),
{
    let is_short = name.unicode_len() == 1 && (name.get_char(0) as u32) < 128;
    proof {
        if name@.len() == 1 {
            assert(name@ =~= seq![name@[0]]);
        }
    }
    let ghost nm = name_of(name@);
    let mut i: usize = 0;
    while i < opts.len()
        invariant
            i <= opts@.len(),
            opts.deep_view().len() == opts@.len(),
            nm == name_of(name@),
            is_short == (name@.len() == 1 && (name@[0] as int) < 128),
            name@.len() == 1 ==> name@ == seq![name@[0]],
            forall|j: int| 0 <= j < i ==> !opt_has_name(#[trigger] opts.deep_view()[j], nm),
        decreases opts@.len() - i,
    {
        let o = &opts[i];
        let hit = if is_short {
            str_eq(o.short.as_str(), name)
        } else {
            str_eq(o.long.as_str(), name)
        };
        assert(hit == opt_has_name(opts.deep_view()[i as int], nm));
        if hit {
            proof {
                lemma_find_name_first(opts.deep_view(), nm, i as int);
            }
            return Some(i);
        }
        i += 1;
    }
    proof {
        lemma_find_name(opts.deep_view(), nm);
    }
    None
}

/// Whether the named option occurs in a match-set.
pub open spec fn present_spec(
    opts: Seq<OptDefV>,
    vals: Seq<Seq<Option<Seq<char>>>>,
    name: Seq<char>,
) -> bool {
    match find_name(opts, name_of(name)) {
        Some(i) => vals[i].len() > 0,
        None => false,
    }
}

/// The value supplied with the named option's first occurrence, if any.
pub open spec fn value_spec(
    opts: Seq<OptDefV>,
    vals: Seq<Seq<Option<Seq<char>>>>,
    name: Seq<char>,
) -> Option<Seq<char>> {
    match find_name(opts, name_of(name)) {
        Some(i) => if vals[i].len() > 0 {
            vals[i][0]
        } else {
            None
        },
        None => None,
    }
}

/// The validated result of applying raw tokens against a schema: for each
/// option, in registry order, the list of its occurrences, each carrying
/// the supplied value where the option takes one.
pub struct Matches {
    pub opts: Vec<OptDef>,
    pub vals: Vec<Vec<Option<String>>>,
}

impl Matches {
    /// One occurrence list per registered option.
    pub open spec fn wf(&self) -> bool {
        self.vals@.len() == self.opts@.len()
    }

    pub open spec fn opts_view(&self) -> Seq<OptDefV> {
        self.opts.deep_view()
    }

    pub open spec fn vals_view(&self) -> Seq<Seq<Option<Seq<char>>>> {
        self.vals.deep_view()
    }

    /// Whether the named option was matched at least once.
    pub fn opt_present(&self, name: &str) -> (r: bool)
        requires
            self.wf(),
            find_name(self.opts_view(), name_of(name@)) is Some,
        ensures
            r == present_spec(self.opts_view(), self.vals_view(), name@),
    {
        proof {
            lemma_find_name(self.opts_view(), name_of(name@));
        }
        match find_opt(&self.opts, name) {
            Some(i) => self.vals[i].len() > 0,
            None => false,
        }
    }

    /// The value supplied with the named option's first occurrence.
    pub fn opt_str(&self, name: &str) -> (r: Option<String>)
        requires
            self.wf(),
            find_name(self.opts_view(), name_of(name@)) is Some,
        ensures
            r.deep_view() == value_spec(self.opts_view(), self.vals_view(), name@),
    {
        proof {
            lemma_find_name(self.opts_view(), name_of(name@));
        }
        match find_opt(&self.opts, name) {
            Some(i) => {
                let row = &self.vals[i];
                if row.len() > 0 {
                    match &row[0] {
                        Some(s) => Some(s.clone()),
                        None => None,
                    }
                } else {
                    None
                }
            },
            None => None,
        }
    }
}

/// Where each registry name stands in the schema.
pub proof fn lemma_schema_names()
    ensures
        find_name(the_schema(), name_of("t"@)) == Some(0int),
        find_name(the_schema(), name_of("D"@)) == Some(1int),
        find_name(the_schema(), name_of("s"@)) == Some(2int),
        find_name(the_schema(), name_of("q"@)) == Some(3int),
        find_name(the_schema(), name_of("n"@)) == Some(4int),
        find_name(the_schema(), name_of("h"@)) == Some(5int),
        find_name(the_schema(), name_of("V"@)) == Some(6int),
{
    reveal_strlit("t");
    reveal_strlit("D");
    reveal_strlit("s");
    reveal_strlit("q");
    reveal_strlit("n");
    reveal_strlit("h");
    reveal_strlit("V");
    assert("t"@ =~= seq!['t']);
    assert("D"@ =~= seq!['D']);
    assert("s"@ =~= seq!['s']);
    assert("q"@ =~= seq!['q']);
    assert("n"@ =~= seq!['n']);
    assert("h"@ =~= seq!['h']);
    assert("V"@ =~= seq!['V']);
    lemma_find_name_first(the_schema(), NameV::Short('t'), 0);
    lemma_find_name_first(the_schema(), NameV::Short('D'), 1);
    lemma_find_name_first(the_schema(), NameV::Short('s'), 2);
    lemma_find_name_first(the_schema(), NameV::Short('q'), 3);
    lemma_find_name_first(the_schema(), NameV::Short('n'), 4);
    lemma_find_name_first(the_schema(), NameV::Short('h'), 5);
    lemma_find_name_first(the_schema(), NameV::Short('V'), 6);
}

} // verus!
