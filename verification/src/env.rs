//! The environment: the values that an environment file gives to the
//! variables of one environment.

use crate::bindings::Bindings;
use crate::error::{AppError, ErrorModel};
use crate::text::{append, chars_of, copy_range, ends_with, holds_at, same_text, string_of};
use vstd::prelude::*;

verus! {

/// A value of an environment file: a JSON value, read as far as the text of
/// a variable needs it.
#[derive(Debug, Clone)]
pub enum EnvValue {
    /// A JSON string.
    Text(String),
    /// A JSON number, as JSON writes it.
    Number(String),
    Bool(bool),
    Null,
    /// An array or an object, as JSON writes it.
    Other(String),
}

/// What a value of an environment file holds.
pub enum EnvValueModel {
    Text(Seq<char>),
    Number(Seq<char>),
    Bool(bool),
    Null,
    Other(Seq<char>),
}

impl View for EnvValue {
    type V = EnvValueModel;

    open spec fn view(&self) -> EnvValueModel {
        match self {
            EnvValue::Text(s) => EnvValueModel::Text(s@),
            EnvValue::Number(s) => EnvValueModel::Number(s@),
            EnvValue::Bool(b) => EnvValueModel::Bool(*b),
            EnvValue::Null => EnvValueModel::Null,
            EnvValue::Other(s) => EnvValueModel::Other(s@),
        }
    }
}

/// The text that a variable has when the environment file gives it `v`: a
/// string is its own text, `null` is the empty text, and anything else is
/// what JSON writes for it.
pub open spec fn value_text(v: EnvValueModel) -> Seq<char> {
    match v {
        EnvValueModel::Text(s) => s,
        EnvValueModel::Number(s) => s,
        EnvValueModel::Bool(b) => if b {
            "true"@
        } else {
            "false"@
        },
        EnvValueModel::Null => Seq::empty(),
        EnvValueModel::Other(s) => s,
    }
}

/// The text that a variable has when the environment file gives it `value`.
pub fn value_to_string(value: &EnvValue) -> (r: String)
    ensures
        r@ == value_text(value@),
{
    match value {
        EnvValue::Text(s) => s.clone(),
        EnvValue::Number(s) => s.clone(),
        EnvValue::Bool(b) => if *b {
            "true".to_owned()
        } else {
            "false".to_owned()
        },
        EnvValue::Null => String::new(),
        EnvValue::Other(s) => s.clone(),
    }
}

/// One environment of an environment file: its name and its variables.
#[derive(Debug, Clone)]
pub struct Environment {
    pub name: String,
    pub variables: Vec<(String, EnvValue)>,
}

/// What an environment holds.
pub struct EnvironmentModel {
    pub name: Seq<char>,
    pub variables: Seq<(Seq<char>, EnvValueModel)>,
}

/// What each of the variables holds.
pub open spec fn variables_of(v: Seq<(String, EnvValue)>) -> Seq<(Seq<char>, EnvValueModel)> {
    v.map_values(|p: (String, EnvValue)| (p.0@, p.1@))
}

impl View for Environment {
    type V = EnvironmentModel;

    open spec fn view(&self) -> EnvironmentModel {
        EnvironmentModel { name: self.name@, variables: variables_of(self.variables@) }
    }
}

/// What each of the environments holds.
pub open spec fn environments_of(v: Seq<Environment>) -> Seq<EnvironmentModel> {
    v.map_values(|e: Environment| e@)
}

/// The place of the environment named `name`: the last of that name, or -1.
pub open spec fn environment_at(envs: Seq<EnvironmentModel>, name: Seq<char>) -> int
    decreases envs.len(),
{
    if envs.len() == 0 {
        -1
    } else if envs.last().name == name {
        envs.len() - 1
    } else {
        environment_at(envs.drop_last(), name)
    }
}

/// The mapping `base` after the variables `vars` are set in it, from first
/// to last, each to its text.
pub open spec fn with_variables(
    base: Map<Seq<char>, Seq<char>>,
    vars: Seq<(Seq<char>, EnvValueModel)>,
) -> Map<Seq<char>, Seq<char>>
    decreases vars.len(),
{
    if vars.len() == 0 {
        base
    } else {
        with_variables(base, vars.drop_last()).insert(vars.last().0, value_text(vars.last().1))
    }
}

/// The mapping `base` after the variables of the environment `name` of the
/// file `envs` are set in it; `base` itself where the file has no such
/// environment.
pub open spec fn with_environment(
    base: Map<Seq<char>, Seq<char>>,
    envs: Seq<EnvironmentModel>,
    name: Seq<char>,
) -> Map<Seq<char>, Seq<char>> {
    let at = environment_at(envs, name);
    if at >= 0 {
        with_variables(base, envs[at].variables)
    } else {
        base
    }
}

/// The names in double quotes, with `, ` between two of them.
pub open spec fn quoted_list(names: Seq<Seq<char>>) -> Seq<char>
    decreases names.len(),
{
    if names.len() == 0 {
        Seq::empty()
    } else if names.len() == 1 {
        "\""@ + names[0] + "\""@
    } else {
        quoted_list(names.drop_last()) + ", "@ + "\""@ + names.last() + "\""@
    }
}

/// The names of the environments, in the order of the file.
pub open spec fn environment_names(envs: Seq<EnvironmentModel>) -> Seq<Seq<char>> {
    envs.map_values(|e: EnvironmentModel| e.name)
}

/// The error for an environment file that is not there.
pub open spec fn file_not_found(env_file: Seq<char>) -> ErrorModel {
    ErrorModel::Environment("Environment file not found: "@ + env_file)
}

/// The error for an environment that the file does not have; it names the
/// environments that the file has.
pub open spec fn environment_not_found(name: Seq<char>, envs: Seq<EnvironmentModel>) -> ErrorModel {
    ErrorModel::Environment(
        "Environment '"@ + name + "' not found. Available: ["@ + quoted_list(
            environment_names(envs),
        ) + "]"@,
    )
}

/// The variables of the environment `name`: those that the environment file
/// `public` gives, and over them those that the private file gives, where
/// there is one and it has the environment. It is an error if there is no
/// environment file, and if it does not have the environment.
pub open spec fn environment(
    public: Option<Seq<EnvironmentModel>>,
    private: Option<Seq<EnvironmentModel>>,
    env_file: Seq<char>,
    name: Seq<char>,
) -> Result<Map<Seq<char>, Seq<char>>, ErrorModel> {
    match public {
        None => Err(file_not_found(env_file)),
        Some(envs) => if environment_at(envs, name) < 0 {
            Err(environment_not_found(name, envs))
        } else {
            let own = with_environment(Map::empty(), envs, name);
            match private {
                Some(more) => Ok(with_environment(own, more, name)),
                None => Ok(own),
            }
        },
    }
}

/// The place of the environment named `name`.
fn find_environment(envs: &Vec<Environment>, name: &str) -> (r: Option<usize>)
    ensures
        match r {
            Some(at) => at == environment_at(environments_of(envs@), name@) && at < envs.len(),
            None => environment_at(environments_of(envs@), name@) == -1,
        },
{
    let mut k: usize = envs.len();
    assert(environments_of(envs@).take(k as int) =~= environments_of(envs@));
    while k > 0
        invariant
            k <= envs.len(),
            environment_at(environments_of(envs@), name@) == environment_at(
                environments_of(envs@).take(k as int),
                name@,
            ),
        decreases k,
    {
        let ghost upto = environments_of(envs@).take(k as int);
        assert(upto.drop_last() =~= environments_of(envs@).take(k - 1));
        if same_text(envs[k - 1].name.as_str(), name) {
            return Some(k - 1);
        }
        k -= 1;
    }
    None
}

/// Sets the variables `vars` in `base`, from first to last.
fn set_variables(base: &mut Bindings, vars: &Vec<(String, EnvValue)>)
    ensures
        final(base)@ == with_variables(old(base)@, variables_of(vars@)),
{
    let mut i: usize = 0;
    while i < vars.len()
        invariant
            i <= vars.len(),
            base@ == with_variables(old(base)@, variables_of(vars@).take(i as int)),
        decreases vars.len() - i,
    {
        let ghost all = variables_of(vars@);
        assert(all.take(i + 1).drop_last() =~= all.take(i as int));
        base.insert(vars[i].0.clone(), value_to_string(&vars[i].1));
        i += 1;
    }
    assert(variables_of(vars@).take(vars@.len() as int) =~= variables_of(vars@));
}

/// The names of `envs` in double quotes, with `, ` between two of them.
fn quote_names(envs: &Vec<Environment>) -> (r: Vec<char>)
    ensures
        r@ == quoted_list(environment_names(environments_of(envs@))),
{
    let mut out: Vec<char> = Vec::new();
    let mut i: usize = 0;
    let ghost names = environment_names(environments_of(envs@));
    while i < envs.len()
        invariant
            i <= envs.len(),
            names == environment_names(environments_of(envs@)),
            out@ == quoted_list(names.take(i as int)),
        decreases envs.len() - i,
    {
        let ghost before = names.take(i as int);
        let ghost now = names.take(i + 1);
        assert(now.drop_last() =~= before);
        if i > 0 {
            append(&mut out, &chars_of(", "));
        }
        append(&mut out, &chars_of("\""));
        append(&mut out, &chars_of(envs[i].name.as_str()));
        append(&mut out, &chars_of("\""));
        i += 1;
    }
    assert(names.take(names.len() as int) =~= names);
    out
}

/// The variables of the environment `env_name`. `public` is what the
/// environment file `env_file` holds, `private` what the private file beside
/// it holds; each is given where the file is there.
pub fn load_environment(
    public: Option<&Vec<Environment>>,
    private: Option<&Vec<Environment>>,
    env_file: &str,
    env_name: &str,
) -> (r: Result<Bindings, AppError>)
    ensures
        match (
            r,
            environment(
                match public {
                    Some(p) => Some(environments_of(p@)),
                    None => None,
                },
                match private {
                    Some(p) => Some(environments_of(p@)),
                    None => None,
                },
                env_file@,
                env_name@,
            ),
        ) {
            (Ok(vars), Ok(wanted)) => vars@ == wanted,
            (Err(e), Err(wanted)) => e@ == wanted,
            _ => false,
        },
{
    let envs = match public {
        Some(envs) => envs,
        None => {
            let mut text = chars_of("Environment file not found: ");
            append(&mut text, &chars_of(env_file));
            return Err(AppError::Environment(string_of(&text)));
        },
    };
    let mut vars = Bindings::new();
    match find_environment(envs, env_name) {
        Some(at) => {
            set_variables(&mut vars, &envs[at].variables);
        },
        None => {
            let mut text = chars_of("Environment '");
            append(&mut text, &chars_of(env_name));
            append(&mut text, &chars_of("' not found. Available: ["));
            append(&mut text, &quote_names(envs));
            append(&mut text, &chars_of("]"));
            return Err(AppError::Environment(string_of(&text)));
        },
    }
    match private {
        Some(more) => match find_environment(more, env_name) {
            Some(at) => {
                set_variables(&mut vars, &more[at].variables);
            },
            None => {},
        },
        None => {},
    }
    Ok(vars)
}

/// The name of the private file beside an environment file whose name has
/// the stem `stem` and the extension `ext`: `.private` goes before a `.env`
/// at the end of the stem, and before the extension where the stem has none.
pub open spec fn private_name(stem: Seq<char>, ext: Seq<char>) -> Seq<char> {
    if ends_with(stem, ".env"@) {
        stem.take(stem.len() - ".env"@.len()) + ".private.env."@ + ext
    } else {
        stem + ".private."@ + ext
    }
}

/// The stem that a file name without one is taken to have.
pub open spec fn default_stem() -> Seq<char> {
    "http-client.env"@
}

/// The extension that a file name without one is taken to have.
pub open spec fn default_extension() -> Seq<char> {
    "json"@
}

/// The name of the private file beside an environment file whose name has
/// the stem `stem` and the extension `ext`.
pub fn private_env_path(stem: Option<&str>, ext: Option<&str>) -> (r: String)
    ensures
        r@ == private_name(
            match stem {
                Some(s) => s@,
                None => default_stem(),
            },
            match ext {
                Some(e) => e@,
                None => default_extension(),
            },
        ),
{
    let stem = match stem {
        Some(s) => chars_of(s),
        None => chars_of("http-client.env"),
    };
    let ext = match ext {
        Some(e) => chars_of(e),
        None => chars_of("json"),
    };
    let n = ".env".unicode_len();
    let mut out: Vec<char>;
    if n <= stem.len() && holds_at(&stem, stem.len() - n, ".env") {
        out = copy_range(&stem, 0, stem.len() - n);
        append(&mut out, &chars_of(".private.env."));
    } else {
        out = copy_range(&stem, 0, stem.len());
        append(&mut out, &chars_of(".private."));
    }
    append(&mut out, &ext);
    string_of(&out)
}

} // verus!
