//! easyjs macros: a body of text in which `#name` stands for the parameter `name`.
use vstd::prelude::*;
use crate::parser::ast::{Statement, StmtV, stmt_view};
use crate::text::{
    before_char, concat, contains_char, lemma_replace_absent, replace, replace_all, spec_trim,
    take_until, trim, trim_start, trim_end, spec_is_whitespace,
};

verus! {

/// The mathematical content of a macro.
pub struct MacroView {
    pub name: Seq<char>,
    pub paramaters: Seq<Seq<char>>,
    pub body: StmtV,
    pub is_hygenic: bool,
}

/// A macro.
#[derive(Debug)]
pub struct Macro {
    /// the name of the macro.
    name: String,
    /// The paramaters to be passed to said macro.
    pub paramaters: Vec<String>,
    /// The macro body statement.
    pub body: Statement,
    /// Is this macro hygenic?
    pub is_hygenic: bool,
}

impl View for Macro {
    type V = MacroView;

    closed spec fn view(&self) -> MacroView {
        MacroView {
            name: self.name@,
            paramaters: self.paramaters@.map_values(|p: String| p@),
            body: stmt_view(self.body),
            is_hygenic: self.is_hygenic,
        }
    }
}

/// What compiling a macro gives: its text, or, for a hygienic macro, a script that the
/// JavaScript runtime evaluates under the given name, the macro's value being the result.
pub enum MacroOutput {
    Text(String),
    Evaluate(String, String),
}

impl MacroOutput {
    /// The value of the macro: its text, or, for a script, what the runtime answered. The
    /// runtime answers `-1` when the evaluation fails, which gives the empty text; for any
    /// other answer `value` is the text of the evaluated value, which must then be given.
    pub fn value(self, answer: i32, value: Option<String>) -> (r: String)
        requires
            self is Evaluate && answer != -1 ==> value is Some,
        ensures
            match self {
                MacroOutput::Text(t) => r@ == t@,
                MacroOutput::Evaluate(_, _) => if answer == -1 {
                    r@ == Seq::<char>::empty()
                } else {
                    r@ == value->0@
                },
            },
    {
        match self {
            MacroOutput::Text(t) => t,
            MacroOutput::Evaluate(_, _) => {
                if answer == -1 {
                    return String::new();
                }
                match value {
                    Some(v) => v,
                    None => String::new(),
                }
            },
        }
    }
}

/// The name a parameter is written with in the body: without `...`, without a default
/// value (`name=value`), and without surrounding white space.
pub open spec fn spec_param_name(param: Seq<char>) -> Seq<char> {
    let n = if param.contains('=') {
        take_until(param, '=')
    } else {
        replace_all(param, "..."@, ""@)
    };
    spec_trim(n)
}

/// The argument given for parameter `i`, or the empty text.
pub open spec fn arg_or_empty(args: Seq<Seq<char>>, i: int) -> Seq<char> {
    if 0 <= i < args.len() {
        args[i]
    } else {
        Seq::empty()
    }
}

/// The body after the first `k` parameters have been replaced, in order: each occurrence
/// of `#` and the parameter's name becomes the argument at the same place.
pub open spec fn substitute(body: Seq<char>, params: Seq<Seq<char>>, args: Seq<Seq<char>>, k: nat) -> Seq<char>
    decreases k,
{
    if k == 0 {
        body
    } else {
        replace_all(
            substitute(body, params, args, (k - 1) as nat),
            seq!['#'] + spec_param_name(params[k - 1]),
            arg_or_empty(args, k - 1),
        )
    }
}

/// The text of a macro's expansion: the body unchanged when there are no arguments or no
/// parameters, else with every parameter replaced.
pub open spec fn macro_text(params: Seq<Seq<char>>, args: Seq<Seq<char>>, body: Seq<char>) -> Seq<char> {
    if args.len() == 0 || params.len() == 0 {
        body
    } else {
        substitute(body, params, args, params.len())
    }
}

/// Whether the expansion of a macro is to be evaluated: a hygienic macro that has
/// parameters and is given arguments.
pub open spec fn is_evaluated(m: MacroView, args: Seq<Seq<char>>) -> bool {
    m.is_hygenic && args.len() > 0 && m.paramaters.len() > 0
}

impl Macro {
    pub fn new(name: String, paramaters: Vec<String>, body: Statement, is_hygenic: bool) -> (r: Macro)
        ensures
            r@ == (MacroView {
                name: name@,
                paramaters: paramaters@.map_values(|p: String| p@),
                body: stmt_view(body),
                is_hygenic,
            }),
    {
        Macro { name, paramaters, body, is_hygenic }
    }

    /// Compile a macro.
    pub fn compile(&self, arguments: Vec<String>, transpiled_body: String) -> (r: MacroOutput)
        ensures
            ({
                let args = arguments@.map_values(|a: String| a@);
                let text = macro_text(self@.paramaters, args, transpiled_body@);
                match r {
                    MacroOutput::Text(t) => !is_evaluated(self@, args) && t@ == text,
                    MacroOutput::Evaluate(script, name) => is_evaluated(self@, args) && script@
                        == text && name@ == "<"@ + self@.name + ">"@,
                }
            }),
    {
        let ghost args = arguments@.map_values(|a: String| a@);
        let ghost params = self@.paramaters;
        let mut body = transpiled_body;
        if arguments.len() == 0 {
            return MacroOutput::Text(body);
        }
        if self.paramaters.len() == 0 {
            return MacroOutput::Text(body);
        }
        // The logic is:
        // loop through each paramater and replace it where there is a '#' infront
        let mut i: usize = 0;
        while i < self.paramaters.len()
            invariant
                i <= self.paramaters@.len(),
                params == self@.paramaters,
                args == arguments@.map_values(|a: String| a@),
                body@ == substitute(transpiled_body@, params, args, i as nat),
            decreases self.paramaters@.len() - i,
        {
            proof {
                reveal_strlit("...");
                reveal_strlit("");
            }
            let param = &self.paramaters[i];
            assert(param@ == params[i as int]);
            // Make sure name does not contain ...!
            let no_dots = replace(param.as_str(), "...", "");
            // Make sure name does not contain key=value
            let param_name = if contains_char(param.as_str(), '=') {
                before_char(param.as_str(), '=')
            } else {
                no_dots
            };
            let param_name = trim(param_name.as_str());
            let needle = concat("#", param_name.as_str());
            proof {
                reveal_strlit("#");
                assert(needle@ == seq!['#'] + param_name@);
            }
            // Replace all occurrences of "#param"
            let ghost before = body@;
            body = if i < arguments.len() {
                assert(arguments@[i as int]@ == arg_or_empty(args, i as int));
                replace(body.as_str(), needle.as_str(), arguments[i].as_str())
            } else {
                assert(""@ =~= arg_or_empty(args, i as int));
                replace(body.as_str(), needle.as_str(), "")
            };
            assert(body@ == replace_all(before, seq!['#'] + spec_param_name(params[i as int]), arg_or_empty(args, i as int)));
            i = i + 1;
        }
        if self.is_hygenic {
            let mut name = concat("<", self.name.as_str());
            name = concat(name.as_str(), ">");
            return MacroOutput::Evaluate(body, name);
        }
        MacroOutput::Text(body)
    }
}

/// Only `#` marks a parameter: a body without `#` expands to itself, whatever the
/// parameters and the arguments.
pub proof fn lemma_body_without_marks_is_unchanged(
    params: Seq<Seq<char>>,
    args: Seq<Seq<char>>,
    body: Seq<char>,
)
    requires
        !body.contains('#'),
    ensures
        macro_text(params, args, body) == body,
{
    lemma_substitute_without_marks(params, args, body, params.len());
}

proof fn lemma_substitute_without_marks(
    params: Seq<Seq<char>>,
    args: Seq<Seq<char>>,
    body: Seq<char>,
    k: nat,
)
    requires
        !body.contains('#'),
    ensures
        substitute(body, params, args, k) == body,
    decreases k,
{
    if k > 0 {
        lemma_substitute_without_marks(params, args, body, (k - 1) as nat);
        let needle = seq!['#'] + spec_param_name(params[k - 1]);
        assert(needle[0] == '#');
        lemma_replace_absent(body, needle, arg_or_empty(args, k - 1));
    }
}

proof fn lemma_replace_after_plain(pre: Seq<char>, x: Seq<char>, pat: Seq<char>, rep: Seq<char>)
    requires
        pat.len() > 0,
        !pre.contains(pat[0]),
    ensures
        replace_all(pre + x, pat, rep) == pre + replace_all(x, pat, rep),
    decreases pre.len(),
{
    let s = pre + x;
    if pre.len() == 0 {
        assert(s =~= x);
        assert(pre + replace_all(x, pat, rep) =~= replace_all(x, pat, rep));
    } else if s.len() < pat.len() {
        assert(replace_all(x, pat, rep) == x);
    } else {
        assert(s.take(pat.len() as int)[0] == pre[0]);
        assert(pre[0] != pat[0]);
        assert(s.take(pat.len() as int) != pat);
        let pre1 = pre.skip(1);
        assert forall|c: char| pre1.contains(c) implies pre.contains(c) by {
            let j = choose|j: int| 0 <= j < pre1.len() && pre1[j] == c;
            assert(pre[j + 1] == c);
        }
        assert(s.skip(1) =~= pre1 + x);
        lemma_replace_after_plain(pre1, x, pat, rep);
        assert(seq![pre[0]] + (pre1 + replace_all(x, pat, rep)) =~= pre + replace_all(x, pat, rep));
    }
}

/// A macro of one parameter puts its argument where the body writes `#` and the parameter's
/// name: for a body with one such mark, the expansion is the body with the mark replaced by
/// the argument. The name is written plainly: no `=`, `.` or `#` in it and no white space
/// at its ends.
pub proof fn lemma_single_parameter(name: Seq<char>, arg: Seq<char>, pre: Seq<char>, post: Seq<char>)
    requires
        name.len() > 0,
        !name.contains('='),
        !name.contains('.'),
        !spec_is_whitespace(name[0]),
        !spec_is_whitespace(name.last()),
        !pre.contains('#'),
        !post.contains('#'),
    ensures
        macro_text(seq![name], seq![arg], pre + seq!['#'] + name + post) == pre + arg + post,
{
    reveal_strlit("...");
    reveal_strlit("");
    assert("..."@.len() == 3 && "..."@[0] == '.');
    lemma_replace_absent(name, "..."@, ""@);
    assert(trim_start(name) == name);
    assert(trim_end(name) == name);
    assert(spec_param_name(name) == name);
    let pat = seq!['#'] + name;
    let params = seq![name];
    let args = seq![arg];
    assert(params[0] == name);
    assert(arg_or_empty(args, 0) == arg);
    assert(substitute(pre + seq!['#'] + name + post, params, args, 0) == pre + seq!['#'] + name + post);
    assert(macro_text(params, args, pre + seq!['#'] + name + post) == replace_all(
        pre + seq!['#'] + name + post,
        pat,
        arg,
    ));
    assert(pre + seq!['#'] + name + post =~= pre + (pat + post));
    lemma_replace_after_plain(pre, pat + post, pat, arg);
    assert((pat + post).take(pat.len() as int) =~= pat);
    assert((pat + post).skip(pat.len() as int) =~= post);
    assert(replace_all(pat + post, pat, arg) == arg + replace_all(post, pat, arg));
    lemma_replace_absent(post, pat, arg);
    assert(pre + (arg + post) =~= pre + arg + post);
}

} // verus!
