use chip_oxide::program_registry::{Platform, Program, ProgramRegistry, Rom};

fn platform(id: &str, tickrate: u32) -> Platform {
    Platform {
        id: id.to_string(),
        name: id.to_uppercase(),
        description: String::new(),
        release: None,
        authors: None,
        urls: None,
        copyright: None,
        license: None,
        display_resolutions: vec!["64x32".to_string()],
        default_tickrate: tickrate,
        quirks: vec![("shift".to_string(), false)],
    }
}

fn rom(file: &str) -> Rom {
    Rom {
        file: file.to_string(),
        embedded_title: None,
        description: None,
        release: None,
        platforms: vec!["originalChip8".to_string()],
    }
}

fn registry() -> ProgramRegistry {
    let programs = vec![
        Program {
            title: "Pong".to_string(),
            description: None,
            release: None,
            authors: None,
            roms: vec![("aaa".to_string(), rom("pong.ch8")), ("bbb".to_string(), rom("pong2.ch8"))],
        },
        Program {
            title: "Tetris".to_string(),
            description: None,
            release: None,
            authors: None,
            roms: vec![("ccc".to_string(), rom("tetris.ch8"))],
        },
    ];
    let hashes = vec![
        ("aaa".to_string(), 0),
        ("bbb".to_string(), 0),
        ("ccc".to_string(), 1),
        ("ddd".to_string(), 1),
        ("eee".to_string(), 7),
    ];
    ProgramRegistry::new(
        vec![platform("originalChip8", 15), platform("superchip", 30), platform("originalChip8", 12)],
        programs,
        hashes,
    )
}

#[test]
fn platforms_are_keyed_by_id_later_wins() {
    let reg = registry();
    assert_eq!(reg.platforms.len(), 2);
    let chip8 = reg.platforms.iter().find(|(k, _)| k == "originalChip8").unwrap();
    assert_eq!(chip8.1.default_tickrate, 12);
    let schip = reg.platforms.iter().find(|(k, _)| k == "superchip").unwrap();
    assert_eq!(schip.1.default_tickrate, 30);
}

#[test]
fn finds_roms_by_hash() {
    let reg = registry();
    assert_eq!(reg.get_rom_from_hash("bbb").unwrap().file, "pong2.ch8");
    assert_eq!(reg.get_rom_from_hash("ccc").unwrap().file, "tetris.ch8");
    // hash indexed, but the program lacks a ROM with it
    assert!(reg.get_rom_from_hash("ddd").is_none());
    // index past the list of programs
    assert!(reg.get_rom_from_hash("eee").is_none());
}
