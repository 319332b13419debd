use server::problem::asset_url::{
    AssetUrlResolveError, AssetUrlResolver, PublicBaseAssetUrlResolver,
    UnconfiguredAssetUrlResolver,
};

#[test]
fn joins_public_base_url_and_object_key() {
    let resolver = PublicBaseAssetUrlResolver::new("https://storage.example/assets/".to_owned());

    let url = resolver
        .resolve("/v1/problems/example.png")
        .expect("public URL should be resolved");

    assert_eq!(
        url,
        "https://storage.example/assets/v1/problems/example.png"
    );
}

#[test]
fn repeated_slashes_are_all_trimmed() {
    let resolver = PublicBaseAssetUrlResolver::new("https://cdn.example///".to_owned());

    assert_eq!(
        resolver.resolve("///a/b.png").expect("URL should be resolved"),
        "https://cdn.example/a/b.png"
    );
    assert_eq!(
        resolver.resolve("c.png").expect("URL should be resolved"),
        "https://cdn.example/c.png"
    );
}

#[test]
fn unconfigured_resolver_makes_no_url() {
    assert_eq!(
        UnconfiguredAssetUrlResolver.resolve("v1/problems/a.png"),
        Err(AssetUrlResolveError)
    );
}
