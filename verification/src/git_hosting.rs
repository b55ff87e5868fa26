//! Git hosting providers declared in settings: the GitHub ones whose base
//! URL parses become providers.
use vstd::prelude::*;

verus! {

/// The kind of a Git hosting service.
#[derive(Clone, Copy, PartialEq, Eq, Structural, Debug)]
pub enum GitHostingProviderKind {
    /// GitHub or GitHub Enterprise.
    Github,
    /// GitLab.
    Gitlab,
    /// Bitbucket.
    Bitbucket,
}

/// A hosting provider declared in settings.
#[derive(Clone, Debug)]
pub struct GitHostingProviderConfig {
    /// The kind of service.
    pub provider: GitHostingProviderKind,
    /// The URL the service is reached at.
    pub base_url: String,
    /// The name shown for it.
    pub name: String,
}

/// The hosting providers of one settings file.
#[derive(Clone, Debug)]
pub struct GitHostingProviderSettings {
    /// The providers it declares.
    pub git_hosting_providers: Vec<GitHostingProviderConfig>,
}

/// A GitHub provider registered from settings.
#[derive(Clone, Debug)]
pub struct SettingProvider {
    /// The name shown for it.
    pub name: String,
    /// Its base URL, as the URL parser writes it back.
    pub base_url: String,
}

/// What the `url` crate's `Url::parse` makes of `input`: the URL as it
/// writes it back, or nothing when `input` is no URL.
pub uninterp spec fn parsed_url(input: Seq<char>) -> Option<Seq<char>>;

/// The `url` crate's `Url::parse` on `input`, written back with
/// `Url::as_str`; a parse error becomes `None`. The contract names the
/// result.
#[verifier::external_body]
fn parse_url(input: &str) -> (r: Option<String>)
    ensures
        match r {
            Some(u) => parsed_url(input@) == Some(u@),
            None => parsed_url(input@) is None,
        },
{
    url::Url::parse(input).ok().map(|u| u.as_str().to_string())
}

/// The providers that `configs` register, in order: each GitHub one whose
/// base URL parses, named as declared.
pub open spec fn registered(configs: Seq<GitHostingProviderConfig>) -> Seq<(Seq<char>, Seq<char>)>
    decreases configs.len(),
{
    if configs.len() == 0 {
        Seq::empty()
    } else {
        let prev = registered(configs.drop_last());
        let c = configs.last();
        if c.provider == GitHostingProviderKind::Github && parsed_url(c.base_url@) is Some {
            prev.push((c.name@, parsed_url(c.base_url@)->0))
        } else {
            prev
        }
    }
}

/// The providers of the user's settings followed by those of each local
/// settings file, in order.
pub open spec fn all_configs(global: GitHostingProviderSettings, locals: Seq<GitHostingProviderSettings>) -> Seq<GitHostingProviderConfig>
    decreases locals.len(),
{
    if locals.len() == 0 {
        global.git_hosting_providers@
    } else {
        all_configs(global, locals.drop_last()) + locals.last().git_hosting_providers@
    }
}

/// Whether the registered providers are those of `spec`.
pub open spec fn providers_are(r: Seq<SettingProvider>, spec: Seq<(Seq<char>, Seq<char>)>) -> bool {
    &&& r.len() == spec.len()
    &&& forall|i: int| 0 <= i < r.len() ==> (#[trigger] r[i]).name@ == spec[i].0 && r[i].base_url@ == spec[i].1
}

fn register_from(out: &mut Vec<SettingProvider>, configs: &Vec<GitHostingProviderConfig>, Ghost(before): Ghost<Seq<GitHostingProviderConfig>>)
    requires
        providers_are(old(out)@, registered(before)),
    ensures
        providers_are(final(out)@, registered(before + configs@)),
{
    let mut i: usize = 0;
    while i < configs.len()
        invariant
            i <= configs@.len(),
            providers_are(out@, registered(before + configs@.take(i as int))),
        decreases configs@.len() - i,
    {
        let c = &configs[i];
        assert((before + configs@.take(i as int + 1)).drop_last() =~= before + configs@.take(i as int));
        assert((before + configs@.take(i as int + 1)).last() == configs@[i as int]);
        if c.provider == GitHostingProviderKind::Github {
            if let Some(u) = parse_url(c.base_url.as_str()) {
                let ghost prev = out@;
                out.push(SettingProvider { name: c.name.clone(), base_url: u });
                assert(providers_are(out@, registered(before + configs@.take(i as int + 1))));
            }
        }
        i = i + 1;
    }
    assert(configs@.take(i as int) =~= configs@);
}

/// The GitHub providers declared in the user's settings and in the local
/// settings files, in that order, whose base URL parses.
pub fn setting_providers(global: &GitHostingProviderSettings, locals: &Vec<GitHostingProviderSettings>) -> (r: Vec<SettingProvider>)
    ensures
        providers_are(r@, registered(all_configs(*global, locals@))),
{
    let mut out: Vec<SettingProvider> = Vec::new();
    assert(Seq::<GitHostingProviderConfig>::empty() + global.git_hosting_providers@ =~= global.git_hosting_providers@);
    register_from(&mut out, &global.git_hosting_providers, Ghost(Seq::empty()));
    let mut i: usize = 0;
    while i < locals.len()
        invariant
            i <= locals@.len(),
            providers_are(out@, registered(all_configs(*global, locals@.take(i as int)))),
        decreases locals@.len() - i,
    {
        assert(locals@.take(i as int + 1).drop_last() =~= locals@.take(i as int));
        register_from(&mut out, &locals[i].git_hosting_providers, Ghost(all_configs(*global, locals@.take(i as int))));
        i = i + 1;
    }
    assert(locals@.take(i as int) =~= locals@);
    out
}

} // verus!
