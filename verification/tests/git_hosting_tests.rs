use zen::git_hosting::{
    setting_providers, GitHostingProviderConfig, GitHostingProviderKind, GitHostingProviderSettings,
};

fn config(provider: GitHostingProviderKind, base_url: &str, name: &str) -> GitHostingProviderConfig {
    GitHostingProviderConfig { provider, base_url: base_url.to_string(), name: name.to_string() }
}

#[test]
fn github_providers_with_a_valid_url_are_registered() {
    let global = GitHostingProviderSettings {
        git_hosting_providers: vec![
            config(GitHostingProviderKind::Github, "https://github.example.com", "Enterprise"),
            config(GitHostingProviderKind::Gitlab, "https://gitlab.example.com", "Lab"),
            config(GitHostingProviderKind::Github, "not a url", "Broken"),
        ],
    };
    let local = GitHostingProviderSettings {
        git_hosting_providers: vec![config(GitHostingProviderKind::Github, "https://git.local/org", "Local")],
    };
    let r = setting_providers(&global, &vec![local]);
    assert_eq!(r.len(), 2);
    assert_eq!(r[0].name, "Enterprise");
    assert_eq!(r[0].base_url, "https://github.example.com/");
    assert_eq!(r[1].name, "Local");
    assert_eq!(r[1].base_url, "https://git.local/org");
}

#[test]
fn no_settings_no_providers() {
    let global = GitHostingProviderSettings { git_hosting_providers: vec![] };
    assert!(setting_providers(&global, &vec![]).is_empty());
}
