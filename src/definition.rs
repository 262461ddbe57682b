use vstd::prelude::*;
use crate::argument::{ArgType, ArgValue, evaluation};
use crate::error::{CommandError, CommandErrorModel};
use crate::instance::{CommandInstance, arg_views};
use crate::read::{ArgToken, TokenModel, token_text, token_views};
use crate::shell::Shell;

verus! {

/// The model of a command definition.
pub ghost struct DefinitionModel<F> {
    pub name: Seq<char>,
    pub args: Seq<ArgType>,
    pub opts: Map<Seq<char>, ArgType>,
    pub description: Seq<char>,
    pub callback: Option<F>,
}

/// Evaluates tokens against types left to right; the first mismatch, with its text and type,
/// ends the evaluation.
pub open spec fn evaluate_all(types: Seq<ArgType>, tokens: Seq<TokenModel>) -> Result<
    Seq<ArgValue>,
    (Seq<char>, ArgType),
>
    decreases types.len(),
{
    if types.len() == 0 {
        Ok(Seq::empty())
    } else {
        let k = types.len() - 1;
        match evaluate_all(types.drop_last(), tokens) {
            Err(e) => Err(e),
            Ok(values) => match evaluation(types[k], token_text(tokens[k])) {
                Some(v) => Ok(values.push(v)),
                None => Err((token_text(tokens[k]), types[k])),
            },
        }
    }
}

/// The positional tokens among `tokens`: the literals, in order.
pub open spec fn positional(tokens: Seq<TokenModel>) -> Seq<TokenModel>
    decreases tokens.len(),
{
    if tokens.len() == 0 {
        Seq::empty()
    } else if tokens.last() is Literal {
        positional(tokens.drop_last()).push(tokens.last())
    } else {
        positional(tokens.drop_last())
    }
}

/// The names of the flags among `tokens`, in order.
pub open spec fn flag_names(tokens: Seq<TokenModel>) -> Seq<Seq<char>>
    decreases tokens.len(),
{
    if tokens.len() == 0 {
        Seq::empty()
    } else if tokens.last() is Flag {
        flag_names(tokens.drop_last()).push(token_text(tokens.last()))
    } else {
        flag_names(tokens.drop_last())
    }
}

/// Binding tokens to a definition: the positional tokens must match the declared types in
/// number, then they are evaluated in order. Flags never count against the arity; they are
/// passed on by name.
pub open spec fn instantiation(
    name: Seq<char>,
    types: Seq<ArgType>,
    opts: Map<Seq<char>, ArgType>,
    tokens: Seq<TokenModel>,
) -> Result<Seq<ArgValue>, CommandErrorModel> {
    let pos = positional(tokens);
    if pos.len() > types.len() {
        Err(CommandErrorModel::TooManyArguments(name, types.len(), pos.len()))
    } else if pos.len() < types.len() {
        Err(CommandErrorModel::TooFewArguments(name, types.len(), pos.len()))
    } else {
        match evaluate_all(types, pos) {
            Ok(values) => Ok(values),
            Err((text, t)) => Err(CommandErrorModel::MismatchArgument(text, t)),
        }
    }
}

/// The type declared last for `name` among the optional arguments.
pub open spec fn last_opt(s: Seq<(Seq<char>, ArgType)>, name: Seq<char>) -> Option<ArgType>
    decreases s.len(),
{
    if s.len() == 0 {
        None
    } else if s.last().0 == name {
        Some(s.last().1)
    } else {
        last_opt(s.drop_last(), name)
    }
}

pub open spec fn opts_map(s: Seq<(Seq<char>, ArgType)>) -> Map<Seq<char>, ArgType> {
    Map::new(|k: Seq<char>| last_opt(s, k) is Some, |k: Seq<char>| last_opt(s, k)->0)
}

pub open spec fn opt_views(v: Seq<(String, ArgType)>) -> Seq<(Seq<char>, ArgType)> {
    v.map_values(|e: (String, ArgType)| (e.0@, e.1))
}

/// A named command: its positional argument types, its description and its callback.
/// Built step by step; `build` checks that a callback was given.
#[derive(Debug)]
pub struct CommandDefinition<F> {
    name: String,
    arg_list: Vec<ArgType>,
    opt_arg_list: Vec<(String, ArgType)>,
    callback: Option<F>,
    description: String,
}

impl<F> View for CommandDefinition<F> {
    type V = DefinitionModel<F>;

    closed spec fn view(&self) -> DefinitionModel<F> {
        DefinitionModel {
            name: self.name@,
            args: self.arg_list@,
            opts: opts_map(opt_views(self.opt_arg_list@)),
            description: self.description@,
            callback: self.callback,
        }
    }
}

impl<F> CommandDefinition<F> {
    pub fn new(name: &str) -> (r: Self)
        ensures
            r@.name == name@,
            r@.args == Seq::<ArgType>::empty(),
            r@.opts == Map::<Seq<char>, ArgType>::empty(),
            r@.description == Seq::<char>::empty(),
            r@.callback is None,
    {
        let r = CommandDefinition {
            name: name.to_owned(),
            arg_list: Vec::new(),
            opt_arg_list: Vec::new(),
            callback: None,
            description: String::new(),
        };
        assert(r@.opts =~= Map::<Seq<char>, ArgType>::empty());
        r
    }

    /// Checks that a callback was attached.
    pub fn build(self) -> (r: Result<Self, CommandError>)
        ensures
            self@.callback is Some ==> r == Ok::<Self, CommandError>(self),
            self@.callback is None ==> (r matches Err(e) && e@ == CommandErrorModel::NoCallback(
                self@.name,
            )),
    {
        if self.callback.is_some() {
            Ok(self)
        } else {
            Err(CommandError::NoCallback(self.name))
        }
    }

    /// Appends one positional argument type.
    pub fn add_arg(self, arg_type: ArgType) -> (r: Self)
        ensures
            r@ == (DefinitionModel { args: self@.args.push(arg_type), ..self@ }),
    {
        let mut d = self;
        d.arg_list.push(arg_type);
        d
    }

    /// Declares an optional argument, given as the flag `--name`; declaring a name again
    /// replaces its type.
    pub fn add_opt_arg(self, name: &str, arg_type: ArgType) -> (r: Self)
        ensures
            r@ == (DefinitionModel { opts: self@.opts.insert(name@, arg_type), ..self@ }),
    {
        let mut d = self;
        let ghost s0 = opt_views(d.opt_arg_list@);
        d.opt_arg_list.push((name.to_owned(), arg_type));
        let ghost s1 = opt_views(d.opt_arg_list@);
        assert(s1 =~= s0.push((name@, arg_type)));
        assert(s1.drop_last() =~= s0);
        assert(opts_map(s1) =~= opts_map(s0).insert(name@, arg_type));
        d
    }

    /// The type declared for the optional argument `name`.
    pub fn opt_arg(&self, name: &str) -> (r: Option<ArgType>)
        ensures
            match r {
                Some(t) => self@.opts.contains_key(name@) && self@.opts[name@] == t,
                None => !self@.opts.contains_key(name@),
            },
    {
        let ghost s = opt_views(self.opt_arg_list@);
        let key = name.to_owned();
        let mut i: usize = self.opt_arg_list.len();
        assert(s.subrange(0, i as int) =~= s);
        while i > 0
            invariant
                i <= self.opt_arg_list@.len(),
                s == opt_views(self.opt_arg_list@),
                key@ == name@,
                last_opt(s.subrange(0, i as int), name@) == last_opt(s, name@),
            decreases i,
        {
            let ghost p = s.subrange(0, i as int);
            assert(p.drop_last() =~= s.subrange(0, i - 1));
            assert(p.last() == s[i - 1]);
            if self.opt_arg_list[i - 1].0 == key {
                return Some(self.opt_arg_list[i - 1].1);
            }
            i = i - 1;
        }
        None
    }

    pub fn set_description(self, description: &str) -> (r: Self)
        ensures
            r@ == (DefinitionModel { description: description@, ..self@ }),
    {
        let mut d = self;
        d.description = description.to_owned();
        d
    }

    pub fn set_callback(self, callback: F) -> (r: Self)
        ensures
            r@ == (DefinitionModel { callback: Some(callback), ..self@ }),
    {
        let mut d = self;
        d.callback = Some(callback);
        d
    }

    pub fn has_callback(&self) -> (r: bool)
        ensures
            r == self@.callback is Some,
    {
        self.callback.is_some()
    }

    /// Binds the callback to the arguments: the positional tokens must match the declared
    /// types in number and each must evaluate against its type; flags are passed on by name.
    pub fn instantiate<'a>(&'a self, shell: &'a Shell<F>, arg_list: Vec<ArgToken>) -> (r: Result<
        CommandInstance<'a, F>,
        CommandError,
    >)
        requires
            self@.callback is Some,
        ensures
            match r {
                Ok(inst) => instantiation(
                    self@.name,
                    self@.args,
                    self@.opts,
                    token_views(arg_list@),
                ) == Ok::<Seq<ArgValue>, CommandErrorModel>(inst.spec_args()) && inst.spec_flags()
                    == flag_names(token_views(arg_list@)) && inst.spec_shell() == shell
                    && *inst.spec_callback() == self@.callback->0,
                Err(e) => instantiation(self@.name, self@.args, self@.opts, token_views(arg_list@))
                    == Err::<Seq<ArgValue>, CommandErrorModel>(e@),
            },
    {
        let ghost toks = token_views(arg_list@);
        let mut literals: Vec<ArgToken> = Vec::new();
        let mut flags: Vec<String> = Vec::new();
        let mut k: usize = 0;
        assert(toks.subrange(0, 0) =~= Seq::<TokenModel>::empty());
        assert(token_views(literals@) =~= Seq::<TokenModel>::empty());
        assert(flags@.map_values(|f: String| f@) =~= Seq::<Seq<char>>::empty());
        while k < arg_list.len()
            invariant
                k <= arg_list@.len(),
                toks == token_views(arg_list@),
                token_views(literals@) == positional(toks.subrange(0, k as int)),
                flags@.map_values(|f: String| f@) == flag_names(toks.subrange(0, k as int)),
            decreases arg_list@.len() - k,
        {
            let ghost pre = toks.subrange(0, k + 1);
            assert(pre.drop_last() =~= toks.subrange(0, k as int));
            assert(pre.last() == arg_list@[k as int]@);
            let ghost lits0 = token_views(literals@);
            let ghost flags0 = flags@.map_values(|f: String| f@);
            match &arg_list[k] {
                ArgToken::Literal(text) => {
                    literals.push(ArgToken::Literal(text.clone()));
                    assert(token_views(literals@) =~= lits0.push(pre.last()));
                },
                ArgToken::Flag(text) => {
                    flags.push(text.clone());
                    assert(flags@.map_values(|f: String| f@) =~= flags0.push(text@));
                },
            }
            k = k + 1;
        }
        assert(toks.subrange(0, k as int) =~= toks);
        let ghost pos = positional(toks);
        if literals.len() > self.arg_list.len() {
            return Err(
                CommandError::TooManyArguments(self.name.clone(), self.arg_list.len(), literals.len()),
            );
        } else if literals.len() < self.arg_list.len() {
            return Err(
                CommandError::TooFewArguments(self.name.clone(), self.arg_list.len(), literals.len()),
            );
        }
        let mut inst_arg_list: Vec<crate::argument::EvaluatedArg> = Vec::new();
        let mut i: usize = 0;
        assert(self@.args.subrange(0, 0) =~= Seq::<ArgType>::empty());
        assert(arg_views(inst_arg_list@) =~= Seq::<ArgValue>::empty());
        while i < self.arg_list.len()
            invariant
                i <= self.arg_list@.len() == literals@.len(),
                pos == token_views(literals@),
                pos == positional(toks),
                toks == token_views(arg_list@),
                evaluate_all(self.arg_list@.subrange(0, i as int), pos) == Ok::<
                    Seq<ArgValue>,
                    (Seq<char>, ArgType),
                >(arg_views(inst_arg_list@)),
            decreases self.arg_list@.len() - i,
        {
            let ghost pre = self.arg_list@.subrange(0, i + 1);
            assert(pre.drop_last() =~= self.arg_list@.subrange(0, i as int));
            assert(pos[i as int] == literals@[i as int]@);
            match self.arg_list[i].evaluate(&literals[i]) {
                Ok(eval) => {
                    let ghost before = inst_arg_list@;
                    let ghost ev = eval@;
                    inst_arg_list.push(eval);
                    assert(arg_views(inst_arg_list@) =~= arg_views(before).push(ev));
                },
                Err(e) => {
                    proof {
                        lemma_evaluate_all_stops(self.arg_list@, pos, i + 1);
                    }
                    return Err(e);
                },
            }
            i = i + 1;
        }
        assert(self.arg_list@.subrange(0, i as int) =~= self.arg_list@);
        let callback = match &self.callback {
            Some(f) => f,
            None => {
                assert(false);
                return Err(CommandError::NoCallback(self.name.clone()));
            },
        };
        Ok(CommandInstance::new(shell, inst_arg_list, flags, callback))
    }

    pub fn name(&self) -> (r: &str)
        ensures
            r@ == self@.name,
    {
        self.name.as_str()
    }

    pub fn arg_list(&self) -> (r: &Vec<ArgType>)
        ensures
            r@ == self@.args,
    {
        &self.arg_list
    }

    pub fn description(&self) -> (r: &str)
        ensures
            r@ == self@.description,
    {
        self.description.as_str()
    }
}

/// Once a prefix of the evaluation fails, the whole evaluation fails the same way.
proof fn lemma_evaluate_all_stops(types: Seq<ArgType>, tokens: Seq<TokenModel>, k: int)
    requires
        0 <= k <= types.len(),
        evaluate_all(types.subrange(0, k), tokens) is Err,
    ensures
        evaluate_all(types, tokens) == evaluate_all(types.subrange(0, k), tokens),
    decreases types.len() - k,
{
    if k < types.len() {
        let next = types.subrange(0, k + 1);
        assert(next.drop_last() =~= types.subrange(0, k));
        lemma_evaluate_all_stops(types, tokens, k + 1);
    } else {
        assert(types.subrange(0, k) =~= types);
    }
}

} // verus!
