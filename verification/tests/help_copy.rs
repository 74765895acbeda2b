use lib::help_copy::{help_text, page_salt, HelpPage};

#[test]
fn all_six_pages_return_non_empty_text() {
    let pages = [
        HelpPage::Step2 {
            created_from_mods: false,
        },
        HelpPage::Step2 {
            created_from_mods: true,
        },
        HelpPage::Step3,
        HelpPage::Step4,
        HelpPage::Step5,
        HelpPage::Downloading {
            manual_downloads: true,
        },
        HelpPage::Downloading {
            manual_downloads: false,
        },
        HelpPage::Installing,
    ];
    for page in pages {
        let text = help_text(page);
        assert!(!text.title.is_empty());
        assert!(!text.bullets.is_empty());
    }
}

#[test]
fn step2_bullet_count_depends_on_created_from_mods() {
    let modify_fork = help_text(HelpPage::Step2 {
        created_from_mods: false,
    });
    assert_eq!(modify_fork.bullets.len(), 4);

    let from_mods = help_text(HelpPage::Step2 {
        created_from_mods: true,
    });
    assert_eq!(from_mods.bullets.len(), 6);
}

#[test]
fn downloading_mentions_manual_downloads_only_where_the_box_can_appear() {
    let with_box = help_text(HelpPage::Downloading {
        manual_downloads: true,
    });
    let without_box = help_text(HelpPage::Downloading {
        manual_downloads: false,
    });
    assert_eq!(with_box.bullets.len(), 6);
    assert_eq!(without_box.bullets.len(), 3);
    assert!(
        without_box
            .bullets
            .iter()
            .all(|bullet| !bullet.body.contains("Manual downloads")
                && !bullet.body.contains("Continue without"))
    );
}

#[test]
fn step3_has_the_prompt_inputs_copy_and_one_lead() {
    let text = help_text(HelpPage::Step3);
    let joined: String = text.bullets.iter().map(|b| b.body).collect();
    assert!(joined.contains("Set @wlb-inputs"));
    assert!(joined.contains("separated by commas"));
    let leads = text.bullets.iter().filter(|b| b.lead.is_some()).count();
    assert_eq!(leads, 1);
}

#[test]
fn no_page_mentions_edit_prompt_json() {
    let pages = [
        HelpPage::Step2 {
            created_from_mods: true,
        },
        HelpPage::Step3,
        HelpPage::Step4,
        HelpPage::Step5,
        HelpPage::Downloading {
            manual_downloads: true,
        },
        HelpPage::Downloading {
            manual_downloads: false,
        },
        HelpPage::Installing,
    ];
    for page in pages {
        let text = help_text(page);
        assert!(!text.title.contains("Edit Prompt JSON"));
        for b in &text.bullets {
            assert!(!b.body.contains("Edit Prompt JSON"));
            if let Some(lead) = b.lead {
                assert!(!lead.contains("Edit Prompt JSON"));
            }
        }
    }
}

#[test]
fn help_page_variants_are_distinguishable() {
    assert_ne!(
        HelpPage::Step2 {
            created_from_mods: false
        },
        HelpPage::Step2 {
            created_from_mods: true
        }
    );
    assert_ne!(HelpPage::Step3, HelpPage::Step4);
}

#[test]
fn page_salts_name_each_page() {
    assert_eq!(page_salt(HelpPage::Step2 { created_from_mods: true }), "step2");
    assert_eq!(page_salt(HelpPage::Downloading { manual_downloads: false }), "downloading");
    assert_eq!(page_salt(HelpPage::Installing), "installing");
}
