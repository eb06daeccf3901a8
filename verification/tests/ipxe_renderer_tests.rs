use rack_firmware::ipxe::{
    ArtifactCacheStrategy, DefaultIpxeOsRenderer, IpxeOs, IpxeOsArtifact, IpxeOsError,
    IpxeOsParameter, IpxeOsRenderer, IpxeScriptTemplate,
};
use rack_firmware::textmap::TextMap;
use sha2::{Digest, Sha256};

fn template(
    name: &str,
    script: &str,
    reserved: &[&str],
    required: &[&str],
    artifacts: &[&str],
) -> IpxeScriptTemplate {
    IpxeScriptTemplate {
        name: name.to_string(),
        description: format!("{} template", name),
        template: script.to_string(),
        reserved_params: reserved.iter().map(|s| s.to_string()).collect(),
        required_params: required.iter().map(|s| s.to_string()).collect(),
        required_artifacts: artifacts.iter().map(|s| s.to_string()).collect(),
    }
}

/// A renderer with a set of templates of the usual names.
fn standard_renderer() -> DefaultIpxeOsRenderer {
    let boot = ["base_url", "console"];
    let all = vec![
        template(
            "qcow-image",
            "#!ipxe\nkernel {{base_url}}/vmlinuz console={{console}} image_url={{image_url}} {{extra}}\ninitrd /initrd.img\nboot\n",
            &boot,
            &["image_url"],
            &[],
        ),
        template(
            "ubuntu-autoinstall",
            "#!ipxe\nset base-url {{base_url}}\nkernel {{kernel}} console={{console}} url={{install_iso}} autoinstall {{extra}}\ninitrd {{initrd}}\nboot\n",
            &boot,
            &["install_iso"],
            &["kernel", "initrd"],
        ),
        template(
            "DGX OS",
            "#!ipxe\nkernel {{base_url}}/dgx/vmlinuz console={{console}} {{extra}}\nboot\n",
            &boot,
            &[],
            &[],
        ),
        template("raw-image", "#!ipxe\nsanboot {{image_url}}\n", &[], &["image_url"], &[]),
        template("discovery-scout-aarch64-dpu", "#!ipxe\necho scout dpu\nboot\n", &[], &[], &[]),
        template("discovery-scout-aarch64", "#!ipxe\necho scout aarch64\nboot\n", &[], &[], &[]),
        template("discovery-scout-x86_64", "#!ipxe\necho scout x86_64\nboot\n", &[], &[], &[]),
        template("error-instructions", "#!ipxe\necho error\nsleep 60\nexit 1\n", &[], &[], &[]),
        template("exit-instructions", "#!ipxe\nexit\n", &[], &[], &[]),
        template("unknown-host", "#!ipxe\necho unknown host\nexit 1\n", &[], &[], &[]),
        template(
            "whoami",
            "#!ipxe\necho mac: ${mac}   \necho ip: ${ip}\t\nshell\n",
            &[],
            &[],
            &[],
        ),
    ];
    let mut templates = TextMap::new();
    for t in all {
        templates.insert(t.name.clone(), t);
    }
    DefaultIpxeOsRenderer::with_templates(templates)
}

fn create_test_ipxeos() -> IpxeOs {
    IpxeOs {
        name: "Test OS".to_string(),
        description: Some("Test operating system".to_string()),
        hash: "placeholder".to_string(),
        tenant_id: None,
        ipxe_template_name: "qcow-image".to_string(),
        parameters: vec![IpxeOsParameter {
            name: "image_url".to_string(),
            value: "http://example.com/image.qcow2".to_string(),
        }],
        artifacts: vec![],
    }
}

#[test]
fn test_hash_computation() {
    let renderer = standard_renderer();
    let mut ipxeos = create_test_ipxeos();

    // Compute hash
    let hash = renderer.hash(&ipxeos);
    ipxeos.hash = hash.clone();

    // Validation should pass
    assert!(renderer.validate(&ipxeos).is_ok());

    // Modify a parameter
    ipxeos.parameters[0].value = "http://example.com/different.qcow2".to_string();

    // Validation should fail due to hash mismatch
    assert!(matches!(
        renderer.validate(&ipxeos),
        Err(IpxeOsError::HashMismatch { .. })
    ));
}

#[test]
fn test_reserved_parameter_validation() {
    let renderer = standard_renderer();
    let mut ipxeos = create_test_ipxeos();

    // Add a reserved parameter
    ipxeos.parameters.push(IpxeOsParameter {
        name: "base_url".to_string(),
        value: "http://bad.com".to_string(),
    });

    // Update hash
    ipxeos.hash = renderer.hash(&ipxeos);

    // Validation should fail
    assert!(matches!(
        renderer.validate(&ipxeos),
        Err(IpxeOsError::ReservedParameterFound(_))
    ));
}

#[test]
fn test_required_parameter_validation() {
    let renderer = standard_renderer();
    let mut ipxeos = create_test_ipxeos();

    // Remove required parameter
    ipxeos.parameters.clear();

    // Update hash
    ipxeos.hash = renderer.hash(&ipxeos);

    // Validation should fail
    assert!(matches!(
        renderer.validate(&ipxeos),
        Err(IpxeOsError::RequiredParameterMissing(_))
    ));
}

#[test]
fn test_required_artifact_validation() {
    let renderer = standard_renderer();
    let mut ipxeos = IpxeOs {
        name: "Ubuntu 22.04".to_string(),
        description: Some("Ubuntu autoinstall".to_string()),
        hash: "placeholder".to_string(),
        tenant_id: None,
        ipxe_template_name: "ubuntu-autoinstall".to_string(),
        parameters: vec![IpxeOsParameter {
            name: "install_iso".to_string(),
            value: "http://releases.ubuntu.com/22.04/ubuntu-22.04-live-server-amd64.iso"
                .to_string(),
        }],
        artifacts: vec![
            // Missing initrd artifact - should cause validation failure
            IpxeOsArtifact {
                name: "kernel".to_string(),
                url: "http://example.com/kernel".to_string(),
                sha: None,
                auth_type: None,
                auth_token: None,
                cache_strategy: ArtifactCacheStrategy::CacheAsNeeded,
                local_url: None,
            },
        ],
    };

    // Update hash
    ipxeos.hash = renderer.hash(&ipxeos);

    // Validation should fail due to missing initrd artifact
    assert!(matches!(
        renderer.validate(&ipxeos),
        Err(IpxeOsError::ArtifactNotFound(_))
    ));

    // Now add the missing artifact
    ipxeos.artifacts.push(IpxeOsArtifact {
        name: "initrd".to_string(),
        url: "http://example.com/initrd".to_string(),
        sha: None,
        auth_type: None,
        auth_token: None,
        cache_strategy: ArtifactCacheStrategy::CacheAsNeeded,
        local_url: None,
    });

    // Update hash
    ipxeos.hash = renderer.hash(&ipxeos);

    // Validation should now pass
    assert!(renderer.validate(&ipxeos).is_ok());
}

#[test]
fn test_render_qcow_template() {
    let renderer = standard_renderer();
    let mut ipxeos = create_test_ipxeos();

    // Update hash
    ipxeos.hash = renderer.hash(&ipxeos);

    let reserved_params = vec![
        IpxeOsParameter {
            name: "base_url".to_string(),
            value: "http://pxe.local".to_string(),
        },
        IpxeOsParameter {
            name: "console".to_string(),
            value: "ttyS0,115200".to_string(),
        },
    ];

    let result = renderer.render(&ipxeos, &reserved_params);
    assert!(result.is_ok());

    let script = result.unwrap();
    assert!(script.contains("http://pxe.local"));
    assert!(script.contains("ttyS0,115200"));
    assert!(script.contains("http://example.com/image.qcow2"));
}

#[test]
fn test_render_with_extra_params() {
    let renderer = standard_renderer();
    let mut ipxeos = create_test_ipxeos();

    // Add extra parameters
    ipxeos.parameters.push(IpxeOsParameter {
        name: "image_sha".to_string(),
        value: "sha256:abc123".to_string(),
    });
    ipxeos.parameters.push(IpxeOsParameter {
        name: "rootfs_uuid".to_string(),
        value: "12345678".to_string(),
    });

    // Update hash
    ipxeos.hash = renderer.hash(&ipxeos);

    let reserved_params = vec![
        IpxeOsParameter {
            name: "base_url".to_string(),
            value: "http://pxe.local".to_string(),
        },
        IpxeOsParameter {
            name: "console".to_string(),
            value: "ttyS0,115200".to_string(),
        },
    ];

    let result = renderer.render(&ipxeos, &reserved_params);
    assert!(result.is_ok());

    let script = result.unwrap();
    assert!(script.contains("image_sha=sha256:abc123"));
    assert!(script.contains("rootfs_uuid=12345678"));
}

#[test]
fn test_render_ubuntu_autoinstall() {
    let renderer = standard_renderer();
    let mut ipxeos = IpxeOs {
        name: "Ubuntu 22.04".to_string(),
        description: Some("Ubuntu autoinstall".to_string()),
        hash: "placeholder".to_string(),
        tenant_id: None,
        ipxe_template_name: "ubuntu-autoinstall".to_string(),
        parameters: vec![IpxeOsParameter {
            name: "install_iso".to_string(),
            value: "http://releases.ubuntu.com/22.04/ubuntu-22.04-live-server-amd64.iso"
                .to_string(),
        }],
        artifacts: vec![
            IpxeOsArtifact {
                name: "kernel".to_string(),
                url: "http://archive.ubuntu.com/ubuntu/dists/jammy/main/installer-amd64/current/legacy-images/netboot/ubuntu-installer/amd64/linux".to_string(),
                sha: None,
                auth_type: None,
                auth_token: None,
                cache_strategy: ArtifactCacheStrategy::CacheAsNeeded,
                local_url: None,
            },
            IpxeOsArtifact {
                name: "initrd".to_string(),
                url: "http://archive.ubuntu.com/ubuntu/dists/jammy/main/installer-amd64/current/legacy-images/netboot/ubuntu-installer/amd64/initrd.gz".to_string(),
                sha: None,
                auth_type: None,
                auth_token: None,
                cache_strategy: ArtifactCacheStrategy::CacheAsNeeded,
                local_url: None,
            },
        ],
    };

    // Update hash
    ipxeos.hash = renderer.hash(&ipxeos);

    let reserved_params = vec![
        IpxeOsParameter {
            name: "base_url".to_string(),
            value: "http://pxe.local".to_string(),
        },
        IpxeOsParameter {
            name: "console".to_string(),
            value: "ttyS0,115200".to_string(),
        },
    ];

    let result = renderer.render_with_artifact_substitution(&ipxeos, &reserved_params);
    assert!(result.is_ok());

    let script = result.unwrap();
    assert!(script.contains("kernel http://archive.ubuntu.com"));
    assert!(script.contains("initrd http://archive.ubuntu.com"));
    assert!(script.contains("url=http://releases.ubuntu.com"));
}

#[test]
fn test_render_with_artifact_substitution() {
    let renderer = standard_renderer();
    let mut ipxeos = IpxeOs {
        name: "Ubuntu with artifacts".to_string(),
        description: Some("Ubuntu with cached artifacts".to_string()),
        hash: "placeholder".to_string(),
        tenant_id: None,
        ipxe_template_name: "ubuntu-autoinstall".to_string(),
        parameters: vec![IpxeOsParameter {
            name: "install_iso".to_string(),
            value: "http://releases.ubuntu.com/22.04/ubuntu-22.04-live-server-amd64.iso"
                .to_string(),
        }],
        artifacts: vec![
            IpxeOsArtifact {
                name: "kernel".to_string(),
                url: "http://archive.ubuntu.com/ubuntu/dists/jammy/main/installer-amd64/current/legacy-images/netboot/ubuntu-installer/amd64/linux".to_string(),
                sha: Some("sha256:abc123".to_string()),
                auth_type: None,
                auth_token: None,
                cache_strategy: ArtifactCacheStrategy::CacheAsNeeded,
                local_url: Some("http://pxe.local/artifacts/kernel-abc123".to_string()),
            },
            IpxeOsArtifact {
                name: "initrd".to_string(),
                url: "http://archive.ubuntu.com/ubuntu/dists/jammy/main/installer-amd64/current/legacy-images/netboot/ubuntu-installer/amd64/initrd.gz".to_string(),
                sha: Some("sha256:def456".to_string()),
                auth_type: None,
                auth_token: None,
                cache_strategy: ArtifactCacheStrategy::CacheAsNeeded,
                local_url: Some("http://pxe.local/artifacts/initrd-def456".to_string()),
            },
        ],
    };

    // Update hash
    ipxeos.hash = renderer.hash(&ipxeos);

    let reserved_params = vec![
        IpxeOsParameter {
            name: "base_url".to_string(),
            value: "http://pxe.local".to_string(),
        },
        IpxeOsParameter {
            name: "console".to_string(),
            value: "ttyS0,115200".to_string(),
        },
    ];

    let result = renderer.render_with_artifact_substitution(&ipxeos, &reserved_params);
    assert!(result.is_ok());

    let script = result.unwrap();
    // Should use local cached URLs instead of remote URLs
    assert!(script.contains("kernel http://pxe.local/artifacts/kernel-abc123"));
    assert!(script.contains("initrd http://pxe.local/artifacts/initrd-def456"));
}

#[test]
fn test_fabricate_local_urls() {
    let renderer = standard_renderer();
    let ipxeos = IpxeOs {
        name: "Test with artifacts".to_string(),
        description: Some("Test".to_string()),
        hash: "test-hash".to_string(),
        tenant_id: None,
        ipxe_template_name: "ubuntu-autoinstall".to_string(),
        parameters: vec![IpxeOsParameter {
            name: "install_iso".to_string(),
            value: "http://example.com/ubuntu.iso".to_string(),
        }],
        artifacts: vec![
            IpxeOsArtifact {
                name: "kernel".to_string(),
                url: "http://example.com/kernel".to_string(),
                sha: Some("sha256:abc123".to_string()),
                auth_type: None,
                auth_token: None,
                cache_strategy: ArtifactCacheStrategy::CacheAsNeeded,
                local_url: None,
            },
            IpxeOsArtifact {
                name: "initrd".to_string(),
                url: "http://example.com/initrd".to_string(),
                sha: None,
                auth_type: None,
                auth_token: None,
                cache_strategy: ArtifactCacheStrategy::RemoteOnly,
                local_url: None,
            },
            IpxeOsArtifact {
                name: "local-var".to_string(),
                url: "${base-url}/local.img".to_string(),
                sha: Some("sha256:local789".to_string()),
                auth_type: None,
                auth_token: None,
                cache_strategy: ArtifactCacheStrategy::CacheAsNeeded,
                local_url: None,
            },
        ],
    };

    let result = renderer.fabricate_local_urls(&ipxeos);

    // First artifact should have local_url using sha field directly
    assert!(result.artifacts[0].local_url.is_some());
    let local_url = result.artifacts[0].local_url.as_ref().unwrap();
    assert_eq!(local_url, "${base_url}/sha256:abc123");

    // Second artifact is RemoteOnly, should not have local_url
    assert!(result.artifacts[1].local_url.is_none());

    // Third artifact has iPXE variable, should not have local_url
    assert!(result.artifacts[2].local_url.is_none());
}

#[test]
fn test_list_templates() {
    let renderer = standard_renderer();
    let templates = renderer.list_templates();

    assert!(templates.contains(&"qcow-image".to_string()));
    assert!(templates.contains(&"ubuntu-autoinstall".to_string()));
    assert!(templates.contains(&"DGX OS".to_string()));
    assert!(templates.contains(&"discovery-scout-aarch64-dpu".to_string()));
    assert!(templates.contains(&"discovery-scout-aarch64".to_string()));
    assert!(templates.contains(&"discovery-scout-x86_64".to_string()));
    assert!(templates.contains(&"error-instructions".to_string()));
    assert!(templates.contains(&"exit-instructions".to_string()));
    assert!(templates.contains(&"unknown-host".to_string()));
    assert!(templates.contains(&"whoami".to_string()));
    assert_eq!(templates.len(), 11); // Total templates
}

#[test]
fn test_get_template() {
    let renderer = standard_renderer();

    let template = renderer.get_template("qcow-image");
    assert!(template.is_some());
    assert_eq!(template.unwrap().name, "qcow-image");

    let missing = renderer.get_template("nonexistent");
    assert!(missing.is_none());
}

#[test]
fn test_missing_reserved_parameter() {
    let renderer = standard_renderer();
    let mut ipxeos = create_test_ipxeos();
    ipxeos.hash = renderer.hash(&ipxeos);

    // Template requires base_url and console, but we only provide base_url
    let reserved_params = vec![IpxeOsParameter {
        name: "base_url".to_string(),
        value: "http://pxe.local".to_string(),
    }];

    let result = renderer.render(&ipxeos, &reserved_params);
    assert!(matches!(
        result,
        Err(IpxeOsError::MissingReservedParameter(_))
    ));
}

#[test]
fn test_unexpected_reserved_parameter() {
    let renderer = standard_renderer();
    let mut ipxeos = create_test_ipxeos();
    ipxeos.hash = renderer.hash(&ipxeos);

    // Provide extra reserved parameter not in template
    let reserved_params = vec![
        IpxeOsParameter {
            name: "base_url".to_string(),
            value: "http://pxe.local".to_string(),
        },
        IpxeOsParameter {
            name: "console".to_string(),
            value: "ttyS0,115200".to_string(),
        },
        IpxeOsParameter {
            name: "console".to_string(),
            value: "ttyS0,115200".to_string(),
        },
        IpxeOsParameter {
            name: "extra_reserved".to_string(),
            value: "value".to_string(),
        },
    ];

    let result = renderer.render(&ipxeos, &reserved_params);
    assert!(matches!(
        result,
        Err(IpxeOsError::UnexpectedReservedParameter(_))
    ));
}

#[test]
fn test_unreplaced_placeholders() {
    let renderer = standard_renderer();
    let mut ipxeos = create_test_ipxeos();
    // Remove the required parameter to cause unreplaced placeholder
    ipxeos.parameters.clear();
    ipxeos.hash = renderer.hash(&ipxeos);

    // Validation will fail first, but let's test the unreplaced check by using a template
    // that doesn't require this param
    ipxeos.ipxe_template_name = "qcow-image".to_string();
    ipxeos.parameters = vec![]; // Missing image_url
    ipxeos.hash = renderer.hash(&ipxeos);

    let reserved_params = vec![
        IpxeOsParameter {
            name: "base_url".to_string(),
            value: "http://pxe.local".to_string(),
        },
        IpxeOsParameter {
            name: "console".to_string(),
            value: "ttyS0,115200".to_string(),
        },
    ];

    let result = renderer.render(&ipxeos, &reserved_params);
    // Will fail on required parameter validation first
    assert!(result.is_err());
}

#[test]
fn test_extra_parameter_name_reserved() {
    let renderer = standard_renderer();
    let mut ipxeos = create_test_ipxeos();

    // Try to use "extra" as a parameter name (should be rejected)
    ipxeos.parameters.push(IpxeOsParameter {
        name: "extra".to_string(),
        value: "some_value".to_string(),
    });
    ipxeos.hash = renderer.hash(&ipxeos);

    let reserved_params = vec![
        IpxeOsParameter {
            name: "base_url".to_string(),
            value: "http://pxe.local".to_string(),
        },
        IpxeOsParameter {
            name: "console".to_string(),
            value: "ttyS0,115200".to_string(),
        },
    ];

    let result = renderer.render(&ipxeos, &reserved_params);
    assert!(matches!(
        result,
        Err(IpxeOsError::ReservedParameterFound(_))
    ));

    // Verify error message mentions "extra"
    if let Err(IpxeOsError::ReservedParameterFound(msg)) = result {
        assert!(msg.contains("extra"));
    }
}

#[test]
fn test_extra_artifact_name_reserved() {
    let renderer = standard_renderer();
    let mut ipxeos = create_test_ipxeos();

    // Try to use "extra" as an artifact name (should be rejected)
    ipxeos.artifacts.push(IpxeOsArtifact {
        name: "extra".to_string(),
        url: "http://example.com/extra".to_string(),
        sha: None,
        auth_type: None,
        auth_token: None,
        cache_strategy: ArtifactCacheStrategy::CacheAsNeeded,
        local_url: None,
    });
    ipxeos.hash = renderer.hash(&ipxeos);

    let reserved_params = vec![
        IpxeOsParameter {
            name: "base_url".to_string(),
            value: "http://pxe.local".to_string(),
        },
        IpxeOsParameter {
            name: "console".to_string(),
            value: "ttyS0,115200".to_string(),
        },
    ];

    let result = renderer.render(&ipxeos, &reserved_params);
    assert!(matches!(
        result,
        Err(IpxeOsError::ReservedParameterFound(_))
    ));

    // Verify error message mentions "extra"
    if let Err(IpxeOsError::ReservedParameterFound(msg)) = result {
        assert!(msg.contains("extra"));
    }
}

#[test]
fn test_extra_case_insensitive_rejected() {
    // All case variations of "extra" should be rejected (case-insensitive)
    let renderer = standard_renderer();
    let mut ipxeos = create_test_ipxeos();

    // "Extra" (capitalized) should also be rejected (case-insensitive)
    ipxeos.parameters.push(IpxeOsParameter {
        name: "Extra".to_string(),
        value: "not_allowed".to_string(),
    });
    ipxeos.hash = renderer.hash(&ipxeos);

    let reserved_params = vec![
        IpxeOsParameter {
            name: "base_url".to_string(),
            value: "http://pxe.local".to_string(),
        },
        IpxeOsParameter {
            name: "console".to_string(),
            value: "ttyS0,115200".to_string(),
        },
    ];

    let result = renderer.render(&ipxeos, &reserved_params);
    assert!(matches!(
        result,
        Err(IpxeOsError::ReservedParameterFound(_))
    ));

    // Verify error message mentions the parameter
    if let Err(IpxeOsError::ReservedParameterFound(msg)) = result {
        assert!(msg.contains("Extra") || msg.contains("extra"));
    }
}

#[test]
fn test_case_preserved_in_extra() {
    // Original case should be preserved in {{extra}} for non-reserved parameters
    let renderer = standard_renderer();
    let mut ipxeos = create_test_ipxeos();

    // Add parameters with mixed case (not "extra")
    ipxeos.parameters.push(IpxeOsParameter {
        name: "MyCustomParam".to_string(),
        value: "value1".to_string(),
    });
    ipxeos.parameters.push(IpxeOsParameter {
        name: "AnotherParam".to_string(),
        value: "value2".to_string(),
    });
    ipxeos.hash = renderer.hash(&ipxeos);

    let reserved_params = vec![
        IpxeOsParameter {
            name: "base_url".to_string(),
            value: "http://pxe.local".to_string(),
        },
        IpxeOsParameter {
            name: "console".to_string(),
            value: "ttyS0,115200".to_string(),
        },
    ];

    let result = renderer.render(&ipxeos, &reserved_params);
    assert!(result.is_ok());

    let script = result.unwrap();
    // Original case should be preserved in {{extra}}
    assert!(script.contains("MyCustomParam=value1"));
    assert!(script.contains("AnotherParam=value2"));
    // Lowercase versions should NOT appear
    assert!(!script.contains("mycustomparam="));
    assert!(!script.contains("anotherparam="));
}

#[test]
fn test_case_insensitive_parameter_matching() {
    // Parameter names should match case-insensitively
    let renderer = standard_renderer();

    let ipxeos = IpxeOs {
        name: "Test".to_string(),
        description: None,
        hash: "".to_string(),
        tenant_id: None,
        ipxe_template_name: "qcow-image".to_string(),
        parameters: vec![
            IpxeOsParameter {
                name: "IMAGE_URL".to_string(),  // Uppercase
                value: "http://example.com/image.qcow2".to_string(),
            },
        ],
        artifacts: vec![],
    };

    let mut ipxeos_with_hash = ipxeos.clone();
    ipxeos_with_hash.hash = renderer.hash(&ipxeos);

    let reserved_params = vec![
        IpxeOsParameter {
            name: "BASE_URL".to_string(),  // Uppercase
            value: "http://pxe.local".to_string(),
        },
        IpxeOsParameter {
            name: "CONSOLE".to_string(),  // Uppercase
            value: "ttyS0,115200".to_string(),
        },
    ];

    let result = renderer.render(&ipxeos_with_hash, &reserved_params);
    assert!(result.is_ok());

    let script = result.unwrap();
    // Should match case-insensitively and render correctly
    assert!(script.contains("http://pxe.local"));
    assert!(script.contains("ttyS0,115200"));
    assert!(script.contains("http://example.com/image.qcow2"));
}

#[test]
fn test_case_insensitive_hash_equivalence() {
    // Different cases of same parameter name should produce same hash
    let renderer = standard_renderer();

    let ipxeos1 = IpxeOs {
        name: "Test".to_string(),
        description: None,
        hash: "".to_string(),
        tenant_id: None,
        ipxe_template_name: "qcow-image".to_string(),
        parameters: vec![
            IpxeOsParameter {
                name: "image_url".to_string(),  // lowercase
                value: "http://example.com/image.qcow2".to_string(),
            },
        ],
        artifacts: vec![],
    };

    let ipxeos2 = IpxeOs {
        name: "Test".to_string(),
        description: None,
        hash: "".to_string(),
        tenant_id: None,
        ipxe_template_name: "qcow-image".to_string(),
        parameters: vec![
            IpxeOsParameter {
                name: "IMAGE_URL".to_string(),  // UPPERCASE
                value: "http://example.com/image.qcow2".to_string(),
            },
        ],
        artifacts: vec![],
    };

    let hash1 = renderer.hash(&ipxeos1);
    let hash2 = renderer.hash(&ipxeos2);

    // Hashes should match (case-insensitive)
    assert_eq!(hash1, hash2);
}

#[test]
fn test_parameter_and_artifact_same_name_in_required() {
    // If required_params has "foo" and we have both parameter and artifact named "foo",
    // parameter should be consumed first (artifacts only consumed by required_artifacts)
    let renderer = standard_renderer();

    let ipxeos = IpxeOs {
        name: "Test".to_string(),
        description: None,
        hash: "".to_string(),
        tenant_id: None,
        ipxe_template_name: "qcow-image".to_string(),
        parameters: vec![
            IpxeOsParameter {
                name: "image_url".to_string(),
                value: "param_value".to_string(),
            },
        ],
        artifacts: vec![
            IpxeOsArtifact {
                name: "image_url".to_string(),  // Same name as parameter
                url: "artifact_url".to_string(),
                sha: None,
                auth_type: None,
                auth_token: None,
                cache_strategy: ArtifactCacheStrategy::CacheAsNeeded,
                local_url: None,
            },
        ],
    };

    let mut ipxeos_with_hash = ipxeos.clone();
    ipxeos_with_hash.hash = renderer.hash(&ipxeos);

    let reserved_params = vec![
        IpxeOsParameter {
            name: "base_url".to_string(),
            value: "http://pxe.local".to_string(),
        },
        IpxeOsParameter {
            name: "console".to_string(),
            value: "ttyS0,115200".to_string(),
        },
    ];

    let result = renderer.render(&ipxeos_with_hash, &reserved_params);
    assert!(result.is_ok());

    let script = result.unwrap();
    // Parameter value should be used (not artifact URL) since required_params consumes parameters
    assert!(script.contains("image_url=param_value"));
    assert!(!script.contains("artifact_url"));
}

#[test]
fn test_duplicate_parameters_occurrence_based() {
    let renderer = standard_renderer();
    let mut ipxeos = create_test_ipxeos();

    // Add duplicate parameter - first consumed by required_params, second goes to {{extra}}
    ipxeos.parameters.push(IpxeOsParameter {
        name: "image_url".to_string(),
        value: "http://example.com/duplicate.qcow2".to_string(),
    });

    ipxeos.hash = renderer.hash(&ipxeos);

    let reserved_params = vec![
        IpxeOsParameter {
            name: "base_url".to_string(),
            value: "http://pxe.local".to_string(),
        },
        IpxeOsParameter {
            name: "console".to_string(),
            value: "ttyS0,115200".to_string(),
        },
    ];

    let result = renderer.render(&ipxeos, &reserved_params);
    assert!(result.is_ok());

    let script = result.unwrap();
    // First occurrence consumed by {{image_url}} placeholder
    assert!(script.contains("image_url=http://example.com/image.qcow2"));
    // Second occurrence goes to {{extra}}
    assert!(script.contains("image_url=http://example.com/duplicate.qcow2"));
}

#[test]
fn test_duplicate_parameters_in_hash() {
    let renderer = standard_renderer();

    let ipxeos1 = IpxeOs {
        name: "Test".to_string(),
        description: None,
        hash: "".to_string(),
        tenant_id: None,
        ipxe_template_name: "qcow-image".to_string(),
        parameters: vec![IpxeOsParameter {
            name: "image_url".to_string(),
            value: "http://example.com/image.qcow2".to_string(),
        }],
        artifacts: vec![],
    };

    let mut ipxeos2 = ipxeos1.clone();
    ipxeos2.parameters.push(IpxeOsParameter {
        name: "image_url".to_string(),
        value: "http://example.com/duplicate.qcow2".to_string(),
    });

    let hash1 = renderer.hash(&ipxeos1);
    let hash2 = renderer.hash(&ipxeos2);

    // Hashes should be different (duplicates affect hash)
    assert_ne!(hash1, hash2);
}

#[test]
fn test_hash_parameter_order_determinism() {
    let renderer = standard_renderer();

    let ipxeos1 = IpxeOs {
        name: "Test".to_string(),
        description: None,
        hash: "".to_string(),
        tenant_id: None,
        ipxe_template_name: "qcow-image".to_string(),
        parameters: vec![
            IpxeOsParameter {
                name: "image_url".to_string(),
                value: "http://example.com/image.qcow2".to_string(),
            },
            IpxeOsParameter {
                name: "extra1".to_string(),
                value: "value1".to_string(),
            },
            IpxeOsParameter {
                name: "extra2".to_string(),
                value: "value2".to_string(),
            },
        ],
        artifacts: vec![],
    };

    let ipxeos2 = IpxeOs {
        name: "Test".to_string(),
        description: None,
        hash: "".to_string(),
        tenant_id: None,
        ipxe_template_name: "qcow-image".to_string(),
        parameters: vec![
            IpxeOsParameter {
                name: "extra2".to_string(),
                value: "value2".to_string(),
            },
            IpxeOsParameter {
                name: "image_url".to_string(),
                value: "http://example.com/image.qcow2".to_string(),
            },
            IpxeOsParameter {
                name: "extra1".to_string(),
                value: "value1".to_string(),
            },
        ],
        artifacts: vec![],
    };

    let hash1 = renderer.hash(&ipxeos1);
    let hash2 = renderer.hash(&ipxeos2);

    // Hashes should be same (order-independent)
    assert_eq!(hash1, hash2);
}

#[test]
fn test_hash_artifact_order_determinism() {
    let renderer = standard_renderer();

    let ipxeos1 = IpxeOs {
        name: "Test".to_string(),
        description: None,
        hash: "".to_string(),
        tenant_id: None,
        ipxe_template_name: "ubuntu-autoinstall".to_string(),
        parameters: vec![IpxeOsParameter {
            name: "install_iso".to_string(),
            value: "http://example.com/ubuntu.iso".to_string(),
        }],
        artifacts: vec![
            IpxeOsArtifact {
                name: "kernel".to_string(),
                url: "http://example.com/kernel".to_string(),
                sha: Some("sha256:kernel123".to_string()),
                auth_type: None,
                auth_token: None,
                cache_strategy: ArtifactCacheStrategy::CacheAsNeeded,
                local_url: None,
            },
            IpxeOsArtifact {
                name: "initrd".to_string(),
                url: "http://example.com/initrd".to_string(),
                sha: Some("sha256:initrd456".to_string()),
                auth_type: None,
                auth_token: None,
                cache_strategy: ArtifactCacheStrategy::CacheAsNeeded,
                local_url: None,
            },
        ],
    };

    let ipxeos2 = IpxeOs {
        name: "Test".to_string(),
        description: None,
        hash: "".to_string(),
        tenant_id: None,
        ipxe_template_name: "ubuntu-autoinstall".to_string(),
        parameters: vec![IpxeOsParameter {
            name: "install_iso".to_string(),
            value: "http://example.com/ubuntu.iso".to_string(),
        }],
        artifacts: vec![
            IpxeOsArtifact {
                name: "initrd".to_string(),
                url: "http://example.com/initrd".to_string(),
                sha: Some("sha256:initrd456".to_string()),
                auth_type: None,
                auth_token: None,
                cache_strategy: ArtifactCacheStrategy::CacheAsNeeded,
                local_url: None,
            },
            IpxeOsArtifact {
                name: "kernel".to_string(),
                url: "http://example.com/kernel".to_string(),
                sha: Some("sha256:kernel123".to_string()),
                auth_type: None,
                auth_token: None,
                cache_strategy: ArtifactCacheStrategy::CacheAsNeeded,
                local_url: None,
            },
        ],
    };

    let hash1 = renderer.hash(&ipxeos1);
    let hash2 = renderer.hash(&ipxeos2);

    // Hashes should be same (artifact order independent)
    assert_eq!(hash1, hash2);
}

#[test]
fn test_hash_excludes_cache_strategy() {
    let renderer = standard_renderer();

    let ipxeos1 = IpxeOs {
        name: "Test".to_string(),
        description: None,
        hash: "".to_string(),
        tenant_id: None,
        ipxe_template_name: "ubuntu-autoinstall".to_string(),
        parameters: vec![IpxeOsParameter {
            name: "install_iso".to_string(),
            value: "http://example.com/ubuntu.iso".to_string(),
        }],
        artifacts: vec![IpxeOsArtifact {
            name: "kernel".to_string(),
            url: "http://example.com/kernel".to_string(),
            sha: Some("sha256:kernel123".to_string()),
            auth_type: None,
            auth_token: None,
            cache_strategy: ArtifactCacheStrategy::CacheAsNeeded,
            local_url: None,
        }],
    };

    let mut ipxeos2 = ipxeos1.clone();
    ipxeos2.artifacts[0].cache_strategy = ArtifactCacheStrategy::RemoteOnly;

    let hash1 = renderer.hash(&ipxeos1);
    let hash2 = renderer.hash(&ipxeos2);

    // Hashes should be same (cache_strategy excluded)
    assert_eq!(hash1, hash2);
}

#[test]
fn test_hash_excludes_local_url() {
    let renderer = standard_renderer();

    let ipxeos1 = IpxeOs {
        name: "Test".to_string(),
        description: None,
        hash: "".to_string(),
        tenant_id: None,
        ipxe_template_name: "ubuntu-autoinstall".to_string(),
        parameters: vec![IpxeOsParameter {
            name: "install_iso".to_string(),
            value: "http://example.com/ubuntu.iso".to_string(),
        }],
        artifacts: vec![IpxeOsArtifact {
            name: "kernel".to_string(),
            url: "http://example.com/kernel".to_string(),
            sha: Some("sha256:kernel123".to_string()),
            auth_type: None,
            auth_token: None,
            cache_strategy: ArtifactCacheStrategy::CacheAsNeeded,
            local_url: None,
        }],
    };

    let mut ipxeos2 = ipxeos1.clone();
    ipxeos2.artifacts[0].local_url = Some("http://local-cache/kernel".to_string());

    let hash1 = renderer.hash(&ipxeos1);
    let hash2 = renderer.hash(&ipxeos2);

    // Hashes should be same (local_url excluded)
    assert_eq!(hash1, hash2);
}

#[test]
fn test_hash_repeatability() {
    let renderer = standard_renderer();

    let ipxeos = IpxeOs {
        name: "Test".to_string(),
        description: Some("Test OS".to_string()),
        hash: "".to_string(),
        tenant_id: Some("tenant-123".to_string()),
        ipxe_template_name: "qcow-image".to_string(),
        parameters: vec![
            IpxeOsParameter {
                name: "image_url".to_string(),
                value: "http://example.com/image.qcow2".to_string(),
            },
            IpxeOsParameter {
                name: "extra1".to_string(),
                value: "value1".to_string(),
            },
        ],
        artifacts: vec![IpxeOsArtifact {
            name: "test".to_string(),
            url: "http://example.com/test".to_string(),
            sha: Some("sha256:test123".to_string()),
            auth_type: Some("Bearer".to_string()),
            auth_token: Some("token".to_string()),
            cache_strategy: ArtifactCacheStrategy::CacheAsNeeded,
            local_url: None,
        }],
    };

    let hash1 = renderer.hash(&ipxeos);
    let hash2 = renderer.hash(&ipxeos);
    let hash3 = renderer.hash(&ipxeos);

    // All hashes should be identical
    assert_eq!(hash1, hash2);
    assert_eq!(hash2, hash3);
}

#[test]
fn test_double_space_cleanup() {
    let renderer = standard_renderer();
    let mut ipxeos = create_test_ipxeos();

    // Add empty optional parameters that would create double spaces
    ipxeos.parameters.push(IpxeOsParameter {
        name: "empty1".to_string(),
        value: "".to_string(),
    });
    ipxeos.parameters.push(IpxeOsParameter {
        name: "opt1".to_string(),
        value: "value1".to_string(),
    });

    ipxeos.hash = renderer.hash(&ipxeos);

    let reserved_params = vec![
        IpxeOsParameter {
            name: "base_url".to_string(),
            value: "http://pxe.local".to_string(),
        },
        IpxeOsParameter {
            name: "console".to_string(),
            value: "ttyS0,115200".to_string(),
        },
    ];

    let result = renderer.render(&ipxeos, &reserved_params);
    assert!(result.is_ok());

    let script = result.unwrap();
    // Verify no double spaces exist
    assert!(!script.contains("  "));
}

#[test]
fn test_empty_optional_parameters_not_in_extra() {
    let renderer = standard_renderer();
    let mut ipxeos = create_test_ipxeos();

    // Add empty optional parameter
    ipxeos.parameters.push(IpxeOsParameter {
        name: "empty_opt".to_string(),
        value: "".to_string(),
    });
    // Add non-empty optional parameter
    ipxeos.parameters.push(IpxeOsParameter {
        name: "valid_opt".to_string(),
        value: "value".to_string(),
    });

    ipxeos.hash = renderer.hash(&ipxeos);

    let reserved_params = vec![
        IpxeOsParameter {
            name: "base_url".to_string(),
            value: "http://pxe.local".to_string(),
        },
        IpxeOsParameter {
            name: "console".to_string(),
            value: "ttyS0,115200".to_string(),
        },
    ];

    let result = renderer.render(&ipxeos, &reserved_params);
    assert!(result.is_ok());

    let script = result.unwrap();
    // Empty parameter should not appear
    assert!(!script.contains("empty_opt"));
    // Non-empty parameter should appear
    assert!(script.contains("valid_opt=value"));
}

#[test]
fn test_fabricate_local_urls_comprehensive() {
    let renderer = standard_renderer();

    let ipxeos = IpxeOs {
        name: "Test".to_string(),
        description: None,
        hash: "test-hash".to_string(),
        tenant_id: None,
        ipxe_template_name: "ubuntu-autoinstall".to_string(),
        parameters: vec![IpxeOsParameter {
            name: "install_iso".to_string(),
            value: "http://example.com/ubuntu.iso".to_string(),
        }],
        artifacts: vec![
            // Artifact with SHA - should generate hash of SHA
            IpxeOsArtifact {
                name: "kernel".to_string(),
                url: "http://example.com/kernel".to_string(),
                sha: Some("sha256:test123".to_string()),
                auth_type: None,
                auth_token: None,
                cache_strategy: ArtifactCacheStrategy::CacheAsNeeded,
                local_url: None,
            },
            // Artifact without SHA - should generate hash of artifact record
            IpxeOsArtifact {
                name: "initrd".to_string(),
                url: "http://example.com/initrd".to_string(),
                sha: None,
                auth_type: None,
                auth_token: None,
                cache_strategy: ArtifactCacheStrategy::CacheAsNeeded,
                local_url: None,
            },
            // RemoteOnly - should skip
            IpxeOsArtifact {
                name: "remote".to_string(),
                url: "http://example.com/remote".to_string(),
                sha: Some("sha256:remote".to_string()),
                auth_type: None,
                auth_token: None,
                cache_strategy: ArtifactCacheStrategy::RemoteOnly,
                local_url: None,
            },
            // Has iPXE variable - should skip
            IpxeOsArtifact {
                name: "local".to_string(),
                url: "${base-url}/local.img".to_string(),
                sha: Some("sha256:local".to_string()),
                auth_type: None,
                auth_token: None,
                cache_strategy: ArtifactCacheStrategy::CacheAsNeeded,
                local_url: None,
            },
        ],
    };

    let result = renderer.fabricate_local_urls(&ipxeos);

    // First artifact should have local_url using sha field directly
    assert!(result.artifacts[0].local_url.is_some());
    let url1 = result.artifacts[0].local_url.as_ref().unwrap();
    assert_eq!(url1, "${base_url}/sha256:test123");

    // Second artifact (no sha) should have local_url with generated 64-char hash
    assert!(result.artifacts[1].local_url.is_some());
    let url2 = result.artifacts[1].local_url.as_ref().unwrap();
    assert!(url2.starts_with("${base_url}/"));
    let hash2 = url2.strip_prefix("${base_url}/").unwrap();
    assert_eq!(hash2.len(), 64); // Generated SHA256 hex
    assert_ne!(url1, url2); // Different URLs

    // Third artifact (RemoteOnly) should not have local_url
    assert!(result.artifacts[2].local_url.is_none());

    // Fourth artifact (has variable) should not have local_url
    assert!(result.artifacts[3].local_url.is_none());
}

#[test]
fn test_fabricate_local_urls_deterministic() {
    let renderer = standard_renderer();

    let ipxeos = IpxeOs {
        name: "Test".to_string(),
        description: None,
        hash: "test-hash".to_string(),
        tenant_id: None,
        ipxe_template_name: "ubuntu-autoinstall".to_string(),
        parameters: vec![IpxeOsParameter {
            name: "install_iso".to_string(),
            value: "http://example.com/ubuntu.iso".to_string(),
        }],
        artifacts: vec![IpxeOsArtifact {
            name: "kernel".to_string(),
            url: "http://example.com/kernel".to_string(),
            sha: Some("sha256:test123".to_string()),
            auth_type: None,
            auth_token: None,
            cache_strategy: ArtifactCacheStrategy::CacheAsNeeded,
            local_url: None,
        }],
    };

    let result1 = renderer.fabricate_local_urls(&ipxeos);
    let result2 = renderer.fabricate_local_urls(&ipxeos);

    // Should generate same URL both times
    assert_eq!(
        result1.artifacts[0].local_url,
        result2.artifacts[0].local_url
    );
}

#[test]
fn test_render_whoami_static_template() {
    let renderer = standard_renderer();

    // Get the whoami template
    let template = renderer.get_template("whoami").expect("whoami template should exist");

    // whoami template is static - no parameters, no artifacts, no placeholders
    let mut ipxeos = IpxeOs {
        name: "WhoAmI".to_string(),
        description: Some("Static whoami script".to_string()),
        hash: String::new(),
        tenant_id: None,
        ipxe_template_name: "whoami".to_string(),
        parameters: vec![],
        artifacts: vec![],
    };

    // Compute and set the correct hash for validation
    ipxeos.hash = renderer.hash(&ipxeos);

    // No reserved params needed
    let reserved_params = vec![];

    let result = renderer.render(&ipxeos, &reserved_params);
    assert!(result.is_ok(), "Render failed: {:?}", result.err());

    let rendered_script = result.unwrap();

    // Compute checksum of rendered script
    let mut hasher_rendered = Sha256::new();
    hasher_rendered.update(rendered_script.as_bytes());
    let rendered_hash = format!("{:x}", hasher_rendered.finalize());

    // Compute checksum of template text (normalized - trailing spaces removed per line)
    let normalized_template = template.template.lines()
        .map(|line| line.trim_end())
        .collect::<Vec<_>>()
        .join("\n");
    let mut hasher_template = Sha256::new();
    hasher_template.update(normalized_template.as_bytes());
    let template_hash = format!("{:x}", hasher_template.finalize());

    // Checksums should match - template rendered as-is with no alterations
    assert_eq!(rendered_hash, template_hash,
        "Rendered script should match template exactly (static template with no placeholders)");
}
