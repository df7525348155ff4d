//! Running a compiled type against `clap`: the parser-node model becomes a
//! `clap::App`, `clap` parses the arguments, and the names of the selected
//! subcommands are read back to rebuild the value.
use vstd::prelude::*;
use crate::attr::Package;
use crate::command::{lemma_command_view, CommandNode, CommandView, DispatchError, Value};
use crate::registry::{value_result_view, Registry, RegistryView};
use clap::App as ClapApp;

verus! {

#[verifier::external_type_specification]
#[verifier::external_body]
pub struct ExClapApp<'a, 'b>(ClapApp<'a, 'b>) where 'a: 'b;

#[verifier::external_type_specification]
#[verifier::external_body]
pub struct ExArgMatches<'a>(clap::ArgMatches<'a>);

#[verifier::external_type_specification]
#[verifier::external_body]
pub struct ExAppSettings(clap::AppSettings);

#[verifier::external_type_specification]
#[verifier::external_body]
pub struct ExClapError(clap::Error);

/// Whether `clap` knows a setting of this name.
pub uninterp spec fn setting_known(s: Seq<char>) -> bool;

/// The setting that `clap` reads from a known name.
pub uninterp spec fn setting_of(s: Seq<char>) -> clap::AppSettings;

/// What a `clap::App` holds of what the library sets on it: its name, its
/// description, the settings turned on, and its subcommands in order.
pub struct ClapModel {
    pub name: Seq<char>,
    pub about: Option<Seq<char>>,
    pub settings: Set<clap::AppSettings>,
    pub subcommands: Seq<ClapModel>,
}

/// The model of a `clap::App`.
pub uninterp spec fn clap_model(a: &ClapApp) -> ClapModel;

/// The names of the subcommands selected in a `clap::ArgMatches`, outermost
/// first.
pub uninterp spec fn selection_of(m: &clap::ArgMatches) -> Seq<Seq<char>>;

/// What `clap` makes of arguments with an app: the selected subcommand names
/// where it accepts them, nothing where it rejects them.
pub uninterp spec fn parsed_selection(a: &ClapApp, args: Seq<Seq<char>>) -> Option<Seq<Seq<char>>>;

/// Relies on `clap::AppSettings::from_str`: whether a name denotes a setting,
/// and which one, depends on the name alone.
#[verifier::external_body]
fn parse_setting(s: &str) -> (r: Option<clap::AppSettings>)
    ensures
        r is Some <==> setting_known(s@),
        r is Some ==> r->Some_0 == setting_of(s@),
{
    s.parse::<clap::AppSettings>().ok()
}

/// Relies on `clap::App::new`: a parser node under a name, with no
/// description and no subcommands.
#[verifier::external_body]
fn clap_new<'a, 'b>(name: &str) -> (r: ClapApp<'a, 'b>)
    ensures
        clap_model(&r).name == name@,
        clap_model(&r).about == None::<Seq<char>>,
        clap_model(&r).subcommands == Seq::<ClapModel>::empty(),
{
    ClapApp::new(name)
}

/// Relies on `clap::App::about`: sets the description, nothing else.
#[verifier::external_body]
fn clap_about<'a, 'b>(app: ClapApp<'a, 'b>, about: &'b str) -> (r: ClapApp<'a, 'b>)
    ensures
        clap_model(&r) == (ClapModel { about: Some(about@), ..clap_model(&app) }),
{
    app.about(about)
}

/// Relies on `clap::App::setting`: turns one setting on, nothing else.
#[verifier::external_body]
fn clap_setting<'a, 'b>(app: ClapApp<'a, 'b>, setting: clap::AppSettings) -> (r: ClapApp<'a, 'b>)
    ensures
        clap_model(&r) == (ClapModel {
            settings: clap_model(&app).settings.insert(setting),
            ..clap_model(&app)
        }),
{
    app.setting(setting)
}

/// Relies on `clap::App::subcommand`: adds a subcommand after the others
/// (a subcommand named `help` also clears a setting of the parent, so
/// nothing is said of the settings here).
#[verifier::external_body]
fn clap_subcommand<'a, 'b>(app: ClapApp<'a, 'b>, sub: ClapApp<'a, 'b>) -> (r: ClapApp<'a, 'b>)
    ensures
        clap_model(&r).name == clap_model(&app).name,
        clap_model(&r).about == clap_model(&app).about,
        clap_model(&r).subcommands == clap_model(&app).subcommands.push(clap_model(&sub)),
{
    app.subcommand(sub)
}

/// Relies on `clap::App::get_matches_from_safe`: parses the arguments (the
/// first is the program name) without printing or exiting; the outcome
/// depends on the app and the arguments alone.
#[verifier::external_body]
fn clap_parse<'a, 'b>(app: ClapApp<'a, 'b>, args: Vec<String>) -> (r: clap::Result<
    clap::ArgMatches<'a>,
>)
    ensures
        r is Ok <==> parsed_selection(&app, args.deep_view()) is Some,
        r is Ok ==> selection_of(&r->Ok_0) == parsed_selection(&app, args.deep_view())->Some_0,
{
    app.get_matches_from_safe(args)
}

/// Relies on `clap::ArgMatches::subcommand`: the selected subcommand's name
/// and matches, if one was selected.
#[verifier::external_body]
fn clap_selected<'a, 'm>(m: &'m clap::ArgMatches<'a>) -> (r: Option<(String, &'m clap::ArgMatches<'a>)>)
    ensures
        r is None <==> selection_of(m).len() == 0,
        r is Some ==> r->Some_0.0@ == selection_of(m)[0] && selection_of(r->Some_0.1)
            == selection_of(m).drop_first(),
{
    match m.subcommand() {
        (name, Some(sub)) => Some((name.to_string(), sub)),
        (_, None) => None,
    }
}

/// Whether every setting in the tree is one that `clap` knows.
pub open spec fn settings_known(v: CommandView) -> bool
    decreases v,
{
    &&& forall|j: int| 0 <= j < v.settings.len() ==> setting_known(#[trigger] v.settings[j])
    &&& forall|k: int| 0 <= k < v.subcommands.len() ==> settings_known(#[trigger] v.subcommands[k])
}

/// Whether an app holds the tree `v`: the same name and description, every
/// setting of `v` turned on, and the subcommands of `v` in order.
pub open spec fn holds_tree(m: ClapModel, v: CommandView) -> bool
    decreases v,
{
    &&& m.name == v.name
    &&& m.about == v.about
    &&& forall|j: int|
        0 <= j < v.settings.len() ==> m.settings.contains(setting_of(#[trigger] v.settings[j]))
    &&& m.subcommands.len() == v.subcommands.len()
    &&& forall|k: int|
        0 <= k < v.subcommands.len() ==> holds_tree(m.subcommands[k], #[trigger] v.subcommands[k])
}

/// The `clap` parser node for `node`, or the first setting in it that `clap`
/// does not know. Subcommands are added before the settings.
pub fn to_clap<'b>(node: &'b CommandNode) -> (r: Result<ClapApp<'b, 'b>, String>)
    ensures
        r is Ok <==> settings_known(node@),
        r is Err ==> !setting_known(r->Err_0@),
        r is Ok ==> holds_tree(clap_model(&r->Ok_0), node@),
    decreases node,
{
    proof {
        lemma_command_view(*node);
    }
    let mut app = clap_new(node.name.as_str());
    if let Some(about) = &node.about {
        app = clap_about(app, about.as_str());
    }
    assert(clap_model(&app).about == node@.about);
    let n = node.subcommands.len();
    let mut k: usize = 0;
    while k < n
        invariant
            0 <= k <= n,
            n == node.subcommands@.len(),
            n == node@.subcommands.len(),
            forall|j: int| 0 <= j < n ==> #[trigger] node@.subcommands[j] == node.subcommands@[j]@,
            forall|j: int| 0 <= j < k ==> settings_known(#[trigger] node@.subcommands[j]),
            clap_model(&app).name == node@.name,
            clap_model(&app).about == node@.about,
            clap_model(&app).subcommands.len() == k,
            forall|j: int|
                0 <= j < k ==> holds_tree(
                    #[trigger] clap_model(&app).subcommands[j],
                    node@.subcommands[j],
                ),
        decreases n - k,
    {
        let sub = &node.subcommands[k];
        match to_clap(sub) {
            Ok(s) => {
                let ghost before = clap_model(&app).subcommands;
                app = clap_subcommand(app, s);
                assert(clap_model(&app).subcommands[k as int] == clap_model(&s));
                assert forall|j: int| 0 <= j < k implies clap_model(&app).subcommands[j]
                    == before[j] by {}
            },
            Err(e) => {
                proof {
                    assert(!settings_known(node@.subcommands[k as int]));
                }
                return Err(e);
            },
        }
        k += 1;
    }
    let n = node.settings.len();
    let mut k: usize = 0;
    while k < n
        invariant
            0 <= k <= n,
            n == node@.settings.len(),
            node@.settings == node.settings.deep_view(),
            forall|j: int| 0 <= j < k ==> setting_known(#[trigger] node@.settings[j]),
            forall|j: int|
                0 <= j < k ==> clap_model(&app).settings.contains(
                    setting_of(#[trigger] node@.settings[j]),
                ),
            forall|j: int| 0 <= j < node@.subcommands.len() ==> settings_known(
                #[trigger] node@.subcommands[j],
            ),
            clap_model(&app).name == node@.name,
            clap_model(&app).about == node@.about,
            clap_model(&app).subcommands.len() == node@.subcommands.len(),
            forall|j: int|
                0 <= j < node@.subcommands.len() ==> holds_tree(
                    #[trigger] clap_model(&app).subcommands[j],
                    node@.subcommands[j],
                ),
        decreases n - k,
    {
        match parse_setting(node.settings[k].as_str()) {
            Some(s) => {
                app = clap_setting(app, s);
                assert(node@.settings[k as int] == node.settings@[k as int]@);
            },
            None => {
                proof {
                    assert(node@.settings[k as int] == node.settings@[k as int]@);
                    assert(!setting_known(node@.settings[k as int]));
                }
                return Err(node.settings[k].clone());
            },
        }
        k += 1;
    }
    Ok(app)
}

/// The names of the subcommands selected in `m`, outermost first.
pub fn selected_names(m: &clap::ArgMatches) -> (r: Vec<String>)
    ensures
        r.deep_view() == selection_of(m),
{
    let mut path: Vec<String> = Vec::new();
    let mut cur = m;
    loop
        invariant
            path.deep_view() + selection_of(cur) == selection_of(m),
        ensures
            path.deep_view() == selection_of(m),
        decreases selection_of(cur).len(),
    {
        match clap_selected(cur) {
            Some((name, sub)) => {
                let ghost rest = selection_of(cur);
                let ghost before = path.deep_view();
                path.push(name);
                cur = sub;
                assert(path.deep_view() =~= before.push(rest[0]));
                assert(path.deep_view() + selection_of(cur) =~= before + rest);
            },
            None => {
                assert(path.deep_view() + selection_of(cur) =~= path.deep_view());
                break ;
            },
        }
    }
    path
}

/// Why running a compiled type against arguments failed.
#[derive(Debug)]
pub enum CliError {
    /// A setting that `clap` does not know.
    UnknownSetting(String),
    /// `clap` rejected the arguments (this includes a request for help).
    Args(clap::Error),
    /// The selected subcommands could not be rebuilt into a value; the
    /// parser tree and the rebuild disagree, which callers treat as fatal.
    Dispatch(DispatchError),
}

/// What running with the selection that `clap` made gives: its rejection,
/// or the value rebuilt from the selected names, or the dispatch failure.
pub open spec fn run_outcome(
    reg: RegistryView,
    i: int,
    sel: Option<Seq<Seq<char>>>,
    r: Result<Value, CliError>,
) -> bool {
    match sel {
        None => r matches Err(CliError::Args(_)),
        Some(p) => match reg.reconstruct_spec(i, p) {
            Ok(v) => r is Ok && r->Ok_0@ == v,
            Err(e) => r matches Err(CliError::Dispatch(d)) && d@ == e,
        },
    }
}

impl Registry {
    /// Rebuilds the value of the type at `i` from the subcommands selected
    /// in `m`. A dispatch error is fatal to callers, as for `reconstruct`.
    pub fn rebuild(&self, i: usize, m: &clap::ArgMatches) -> (r: Result<Value, DispatchError>)
        requires
            i < self@.len(),
        ensures
            value_result_view(r) == self@.reconstruct_spec(i as int, selection_of(m)),
    {
        let path = selected_names(m);
        self.reconstruct(i, &path)
    }

    /// Parses `args` (the first is the program name) with the parser node of
    /// the type at `i`, and rebuilds the value of that type from the
    /// subcommands selected.
    pub fn get_matches_from(&self, i: usize, package: &Package, args: Vec<String>) -> (r: Result<
        Value,
        CliError,
    >)
        requires
            i < self@.len(),
        ensures
            (r matches Err(CliError::UnknownSetting(_))) <==> !settings_known(
                self@.app_spec(i as int, package@),
            ),
            !(r matches Err(CliError::UnknownSetting(_))) ==> exists|a: ClapApp<'static, 'static>|
                holds_tree(#[trigger] clap_model(&a), self@.app_spec(i as int, package@))
                    && run_outcome(self@, i as int, parsed_selection(&a, args.deep_view()), r),
    {
        let node = self.app(i, package);
        let app = match to_clap(&node) {
            Ok(a) => a,
            Err(s) => {
                return Err(CliError::UnknownSetting(s));
            },
        };
        let ghost sel = parsed_selection(&app, args.deep_view());
        let ghost built = clap_model(&app);
        let matches = match clap_parse(app, args) {
            Ok(m) => m,
            Err(e) => {
                let r = Err(CliError::Args(e));
                assert(run_outcome(self@, i as int, sel, r));
                return r;
            },
        };
        let r = match self.rebuild(i, &matches) {
            Ok(v) => Ok(v),
            Err(e) => Err(CliError::Dispatch(e)),
        };
        assert(run_outcome(self@, i as int, sel, r));
        r
    }
}

} // verus!
