use orion::Extension;
use orion::ExtensionMap;
use orion::Item;
use orion::IwtRssExtension;
use orion::IwtRssTargetNetwork;
use orion::Network;
use orion::RssItemExt;
use orion::has_well_formed_iwt_extension;

fn create_extension(name: &str, value: &str) -> Extension {
    Extension {
        name: name.to_string(),
        value: Some(value.to_string()),
        children: vec![],
    }
}

fn create_extension_with_children(
    name: &str,
    children: Vec<(&str, Vec<Extension>)>,
) -> Extension {
    Extension {
        name: name.to_string(),
        value: None,
        children: children
            .into_iter()
            .map(|(key, exts)| (key.to_string(), exts))
            .collect(),
    }
}

fn create_target_network_name_extension(network: &Network) -> Extension {
    create_extension("iwt:targetNetworkName", network.to_string().as_str())
}

fn create_target_network_extension(network: &Network) -> Extension {
    create_extension_with_children(
        "iwt:targetNetwork",
        vec![(
            "targetNetworkName",
            vec![create_target_network_name_extension(network)],
        )],
    )
}

fn create_iwt_extension(
    target_networks: &[Network],
    content_warning: Option<String>,
) -> Extension {
    let mut children = vec![(
        "targetNetwork",
        target_networks
            .iter()
            .map(create_target_network_extension)
            .collect::<Vec<_>>(),
    )];

    if let Some(cw) = content_warning {
        children.push((
            "contentWarning",
            vec![create_extension("iwt:contentWarning", cw.as_str())],
        ))
    }

    create_extension_with_children("iwt:extension", children)
}

fn create_iwt_extension_map(
    target_networks: &[Network],
    content_warning: Option<String>,
) -> ExtensionMap {
    vec![(
        "iwt".to_string(),
        vec![(
            "extension".to_string(),
            vec![create_iwt_extension(target_networks, content_warning)],
        )],
    )]
}

fn item_with_extensions(extensions: ExtensionMap) -> Item {
    Item {
        title: None,
        link: None,
        description: None,
        guid: None,
        extensions,
    }
}

#[test]
fn test_well_formedness_check_accepts_known_networks_and_rejects_others() {
    let empty = item_with_extensions(vec![]);
    assert!(has_well_formed_iwt_extension(&empty));

    let good = item_with_extensions(create_iwt_extension_map(
        &[Network::Mastodon, Network::Twitter],
        None,
    ));
    assert!(has_well_formed_iwt_extension(&good));

    // a target network without a name element is rejected
    let nameless = item_with_extensions(vec![(
        "iwt".to_string(),
        vec![(
            "extension".to_string(),
            vec![create_extension_with_children(
                "iwt:extension",
                vec![(
                    "targetNetwork",
                    vec![create_extension_with_children("iwt:targetNetwork", vec![])],
                )],
            )],
        )],
    )]);
    assert!(!has_well_formed_iwt_extension(&nameless));

    // an unknown network name is rejected
    let unknown = item_with_extensions(vec![(
        "iwt".to_string(),
        vec![(
            "extension".to_string(),
            vec![create_extension_with_children(
                "iwt:extension",
                vec![(
                    "targetNetwork",
                    vec![create_extension_with_children(
                        "iwt:targetNetwork",
                        vec![(
                            "targetNetworkName",
                            vec![create_extension("iwt:targetNetworkName", "friendster")],
                        )],
                    )],
                )],
            )],
        )],
    )]);
    assert!(!has_well_formed_iwt_extension(&unknown));
}

#[test]
fn test_get_iwt_extension_should_return_none_when_extension_is_not_available() {
    let item = item_with_extensions(vec![]);

    let extension = item.get_iwt_extension();

    assert_eq!(extension, None);
}

#[test]
fn test_get_iwt_extension_should_return_the_extension_with_zero_target_networks_if_no_children() {
    let item = item_with_extensions(create_iwt_extension_map(&[], None));

    let extension = item.get_iwt_extension();

    assert_eq!(
        extension,
        Some(IwtRssExtension {
            target_networks: vec![],
            content_warning: None
        })
    );
}

#[test]
fn test_get_iwt_extension_should_return_the_extension_with_target_networks() {
    let item = item_with_extensions(create_iwt_extension_map(
        &[Network::Mastodon, Network::Twitter],
        None,
    ));

    let extension = item.get_iwt_extension();

    assert_eq!(
        extension,
        Some(IwtRssExtension {
            target_networks: vec![
                IwtRssTargetNetwork {
                    network: Network::Mastodon
                },
                IwtRssTargetNetwork {
                    network: Network::Twitter
                },
            ],
            content_warning: None
        })
    );
}

#[test]
fn test_get_iwt_extension_should_return_the_extension_with_content_warning() {
    let item = item_with_extensions(create_iwt_extension_map(
        &[Network::Mastodon],
        Some("This is a content_warning".to_string()),
    ));

    let extension = item.get_iwt_extension();

    assert_eq!(
        extension,
        Some(IwtRssExtension {
            target_networks: vec![IwtRssTargetNetwork {
                network: Network::Mastodon
            }],
            content_warning: Some("This is a content_warning".to_string())
        })
    );
}
