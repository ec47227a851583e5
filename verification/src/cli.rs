//! The command line, and how logs are written.

use vstd::prelude::*;
use crate::text::{same, strip_prefix};

verus! {

/// The path that arguments name with `--config`, from the `i`-th on. The first that
/// does counts; one at the end without a path names none.
pub open spec fn config_path(args: Seq<Seq<char>>, i: int) -> Option<Seq<char>>
    decreases args.len() - i,
{
    if i >= args.len() {
        None
    } else if args[i] == "--config"@ {
        if i + 1 < args.len() {
            Some(args[i + 1])
        } else {
            None
        }
    } else if crate::text::begins(args[i], "--config="@) {
        Some(args[i].skip("--config="@.len() as int))
    } else {
        config_path(args, i + 1)
    }
}

/// The path that the command line names with `--config`. The first argument is the
/// name of the program.
pub fn parse_config_arg(args: &Vec<String>) -> (r: Option<String>)
    ensures
        crate::text::opt_view(r) == config_path(crate::text::views(args@), 1),
{
    let ghost all = crate::text::views(args@);
    let n: usize = args.len();
    let mut i: usize = 1;
    while i < n
        invariant
            n == args@.len(),
            all == crate::text::views(args@),
            1 <= i,
            config_path(all, 1) == config_path(all, i as int),
        decreases n - i,
    {
        assert(all[i as int] == args@[i as int]@);
        if same(&args[i], "--config") {
            if i + 1 < n {
                assert(all[i + 1] == args@[i + 1]@);
                return Some(args[i + 1].clone());
            }
            return None;
        }
        if let Some(path) = strip_prefix(&args[i], "--config=") {
            return Some(path);
        }
        i = i + 1;
    }
    None
}

/// How log lines look.
#[derive(Debug, Clone, Copy, PartialEq, Eq, Structural)]
pub enum LogFormat {
    Text,
    Json,
    Pretty,
}

/// How log lines look, from the configured name; plain text for any other.
pub fn log_format(name: &str) -> (r: LogFormat)
    ensures
        r == (if name@ == "json"@ {
            LogFormat::Json
        } else if name@ == "pretty"@ {
            LogFormat::Pretty
        } else {
            LogFormat::Text
        }),
{
    if same(name, "json") {
        LogFormat::Json
    } else if same(name, "pretty") {
        LogFormat::Pretty
    } else {
        LogFormat::Text
    }
}

// ---- laws --------------------------------------------------------------------------

/// The path of the settings is what follows the first `--config`, as an argument of its own or
/// behind an equals sign; without one there is none.
pub proof fn settings_are_named_on_the_command_line(args: &Vec<String>, r: Option<String>, i: int)
    requires
        call_ensures(parse_config_arg, (args,), r),
        1 <= i <= args@.len(),
        forall|j: int|
            1 <= j < i ==> (#[trigger] args@[j])@ != "--config"@ && !crate::text::begins(
                args@[j]@,
                "--config="@,
            ),
    ensures
        i + 1 < args@.len() && args@[i]@ == "--config"@ ==> (r matches Some(p) && p@ == args@[i
            + 1]@),
        i < args@.len() && crate::text::begins(args@[i]@, "--config="@) ==> (r matches Some(p)
            && args@[i]@ == "--config="@ + p@),
        i == args@.len() ==> r is None,
{
    let v = crate::text::views(args@);
    lemma_config_path(v, 1, i);
    reveal_strlit("--config");
    reveal_strlit("--config=");
    if i < args@.len() {
        assert(v[i] == args@[i]@);
        if crate::text::begins(args@[i]@, "--config="@) {
            assert("--config="@.len() == 9 && "--config"@.len() == 8);
            assert(args@[i]@ =~= args@[i]@.take(9) + args@[i]@.skip(9));
        }
    }
    if i + 1 < args@.len() {
        assert(v[i + 1] == args@[i + 1]@);
    }
}

proof fn lemma_config_path(v: Seq<Seq<char>>, from: int, i: int)
    requires
        0 <= from <= i <= v.len(),
        forall|j: int|
            from <= j < i ==> #[trigger] v[j] != "--config"@ && !crate::text::begins(
                v[j],
                "--config="@,
            ),
    ensures
        config_path(v, from) == config_path(v, i),
    decreases i - from,
{
    if from < i {
        assert(v[from] != "--config"@);
        lemma_config_path(v, from + 1, i);
    }
}

/// A flag that ends the command line names no file.
pub proof fn flags_need_a_file(args: &Vec<String>, r: Option<String>)
    requires
        call_ensures(parse_config_arg, (args,), r),
        args@.len() >= 2,
        args@.last()@ == "--config"@,
        forall|j: int|
            1 <= j < args@.len() - 1 ==> (#[trigger] args@[j])@ != "--config"@ && !crate::text::begins(
                args@[j]@,
                "--config="@,
            ),
    ensures
        r is None,
{
    let v = crate::text::views(args@);
    assert forall|j: int| 1 <= j < v.len() - 1 implies (#[trigger] v[j]) != "--config"@
        && !crate::text::begins(v[j], "--config="@) by {
        assert(v[j] == args@[j]@);
    }
    assert(v[v.len() - 1] == args@.last()@);
    lemma_last_flag(v, 1);
}

proof fn lemma_last_flag(v: Seq<Seq<char>>, i: int)
    requires
        0 <= i < v.len(),
        v.last() == "--config"@,
        forall|j: int|
            i <= j < v.len() - 1 ==> (#[trigger] v[j]) != "--config"@ && !crate::text::begins(
                v[j],
                "--config="@,
            ),
    ensures
        config_path(v, i) is None,
    decreases v.len() - i,
{
    if i < v.len() - 1 {
        assert(v[i] != "--config"@);
        lemma_last_flag(v, i + 1);
    }
}

} // verus!
