//! The formatting options and the command-line arguments that carry them.

pub use crate::language::LanguageVariant;
pub use crate::resolve::{resolve_config, Diagnostic, GlobalDefaults, ResolveResult};
use crate::text::{decimal, decimal_string, push_arg};
use vstd::prelude::*;

verus! {

/// The formatting options that are handed to the formatter.
#[derive(Debug, Clone, Copy, PartialEq, Eq, Structural)]
pub struct Configuration {
    /// Spaces per indent; zero leaves the choice to the formatter.
    pub indent_width: u8,
    /// like -bn
    pub binary_next_line: bool,
    /// like -ci
    pub switch_case_indent: bool,
    /// like -sr
    pub space_redirects: bool,
    /// like -kp
    pub keep_padding: bool,
    /// like -fn
    pub function_next_line: bool,
}

/// The argument `name` where `on` holds, and nothing otherwise.
pub open spec fn flag(on: bool, name: Seq<char>) -> Seq<Seq<char>> {
    if on {
        seq![name]
    } else {
        seq![]
    }
}

/// The place of a flag in the fixed order of the flags, and `-1` for any other text.
pub open spec fn flag_rank(arg: Seq<char>) -> int {
    if arg == "-bn"@ {
        0
    } else if arg == "-ci"@ {
        1
    } else if arg == "-sr"@ {
        2
    } else if arg == "-kp"@ {
        3
    } else if arg == "-fn"@ {
        4
    } else {
        -1
    }
}

impl Configuration {
    /// The configuration in which nothing is set.
    pub open spec fn unset() -> Configuration {
        Configuration {
            indent_width: 0,
            binary_next_line: false,
            switch_case_indent: false,
            space_redirects: false,
            keep_padding: false,
            function_next_line: false,
        }
    }

    /// `-i` and the width in decimal, unless the width is zero.
    pub open spec fn indent_args(self) -> Seq<Seq<char>> {
        if self.indent_width != 0 {
            seq!["-i"@, decimal(self.indent_width as nat)]
        } else {
            seq![]
        }
    }

    /// The arguments that stand for this configuration: the indent pair, then one flag
    /// for each option that is switched on, always in this order.
    pub open spec fn args(self) -> Seq<Seq<char>> {
        self.indent_args() + flag(self.binary_next_line, "-bn"@) + flag(
            self.switch_case_indent,
            "-ci"@,
        ) + flag(self.space_redirects, "-sr"@) + flag(self.keep_padding, "-kp"@) + flag(
            self.function_next_line,
            "-fn"@,
        )
    }

    /// Appends the arguments of this configuration to `buffer`.
    pub fn generate_args(&self, buffer: &mut Vec<String>)
        ensures
            final(buffer).deep_view() == old(buffer).deep_view() + self.args(),
            *self == Configuration::unset() ==> final(buffer).deep_view() == old(
                buffer,
            ).deep_view(),
    {
        if self.indent_width != 0 {
            push_arg(buffer, "-i");
            push_arg(buffer, decimal_string(self.indent_width).as_str());
        }
        assert(buffer.deep_view() =~= old(buffer).deep_view() + self.indent_args());
        if self.binary_next_line {
            push_arg(buffer, "-bn");
        }
        if self.switch_case_indent {
            push_arg(buffer, "-ci");
        }
        if self.space_redirects {
            push_arg(buffer, "-sr");
        }
        if self.keep_padding {
            push_arg(buffer, "-kp");
        }
        if self.function_next_line {
            push_arg(buffer, "-fn");
        }
        assert(buffer.deep_view() =~= old(buffer).deep_view() + self.args());
        assert(Configuration::unset().args() =~= Seq::<Seq<char>>::empty());
    }
}

/// Whether `flags` holds flags only, each of a rank below `bound`, in rising rank.
spec fn rising(flags: Seq<Seq<char>>, bound: int) -> bool {
    &&& forall|i: int| 0 <= i < flags.len() ==> 0 <= flag_rank(#[trigger] flags[i]) < bound
    &&& forall|i: int, j: int|
        #![trigger flags[i], flags[j]]
        0 <= i < j < flags.len() ==> flag_rank(flags[i]) < flag_rank(flags[j])
}

/// Each flag has its rank.
proof fn lemma_flag_ranks()
    ensures
        flag_rank("-bn"@) == 0,
        flag_rank("-ci"@) == 1,
        flag_rank("-sr"@) == 2,
        flag_rank("-kp"@) == 3,
        flag_rank("-fn"@) == 4,
{
    reveal_strlit("-bn");
    reveal_strlit("-ci");
    reveal_strlit("-sr");
    reveal_strlit("-kp");
    reveal_strlit("-fn");
    assert("-bn"@[1] == 'b' && "-ci"@[1] == 'c' && "-sr"@[1] == 's' && "-kp"@[1] == 'k' && "-fn"@[1]
        == 'f');
}

/// A flag of the next rank, or nothing, may follow flags in rising rank.
proof fn lemma_next_flag(flags: Seq<Seq<char>>, on: bool, name: Seq<char>)
    requires
        rising(flags, flag_rank(name)),
        flag_rank(name) >= 0,
    ensures
        rising(flags + flag(on, name), flag_rank(name) + 1),
{
    let longer = flags + flag(on, name);
    assert forall|i: int| 0 <= i < longer.len() implies 0 <= flag_rank(#[trigger] longer[i])
        <= flag_rank(name) && (i < flags.len() ==> longer[i] == flags[i]) && (i >= flags.len()
        ==> longer[i] == name) by {
        if i < flags.len() {
            assert(longer[i] == flags[i]);
        }
    }
}

/// The arguments of a configuration start with its indent pair, and what follows are
/// flags in their fixed order: of two flags, the one of lower rank comes first.
pub proof fn lemma_flags_in_order(config: Configuration)
    ensures
        config.indent_args().is_prefix_of(config.args()),
        forall|i: int, j: int|
            #![trigger config.args()[i], config.args()[j]]
            config.indent_args().len() <= i < j < config.args().len() ==> 0 <= flag_rank(
                config.args()[i],
            ) < flag_rank(config.args()[j]),
{
    lemma_flag_ranks();
    let start = config.indent_args();
    let none = Seq::<Seq<char>>::empty();
    let bn = none + flag(config.binary_next_line, "-bn"@);
    let ci = bn + flag(config.switch_case_indent, "-ci"@);
    let sr = ci + flag(config.space_redirects, "-sr"@);
    let kp = sr + flag(config.keep_padding, "-kp"@);
    let flags = kp + flag(config.function_next_line, "-fn"@);
    lemma_next_flag(none, config.binary_next_line, "-bn"@);
    lemma_next_flag(bn, config.switch_case_indent, "-ci"@);
    lemma_next_flag(ci, config.space_redirects, "-sr"@);
    lemma_next_flag(sr, config.keep_padding, "-kp"@);
    lemma_next_flag(kp, config.function_next_line, "-fn"@);
    assert(config.args() =~= start + flags);
    assert forall|i: int, j: int|
        #![trigger config.args()[i], config.args()[j]]
        start.len() <= i < j < config.args().len() implies 0 <= flag_rank(config.args()[i])
        < flag_rank(config.args()[j]) by {
        assert(config.args()[i] == flags[i - start.len()]);
        assert(config.args()[j] == flags[j - start.len()]);
    }
}

impl Default for Configuration {
    fn default() -> (config: Self)
        ensures
            config == Configuration::unset(),
    {
        Configuration {
            indent_width: 0,
            binary_next_line: false,
            switch_case_indent: false,
            space_redirects: false,
            keep_padding: false,
            function_next_line: false,
        }
    }
}

} // verus!
