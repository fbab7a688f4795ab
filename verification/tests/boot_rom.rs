use aythya::{BootRomImage, BootRomKind, BootRoms};

fn roms() -> BootRoms {
    BootRoms::new(
        vec![0x31; 256],
        vec![0x32; 257],
        vec![0x33; 258],
        vec![0x34; 259],
        vec![0x35; 2304],
        vec![0x36; 2305],
        vec![0x37; 2306],
    )
}

#[test]
fn every_variant_gets_its_own_image() {
    let roms = roms();
    let expected: [(BootRomKind, u8, usize); 8] = [
        (BootRomKind::Dmg0, 0x31, 256),
        (BootRomKind::Dmg, 0x31, 256),
        (BootRomKind::Mgb, 0x32, 257),
        (BootRomKind::Sgb, 0x33, 258),
        (BootRomKind::Sgb2, 0x34, 259),
        (BootRomKind::Cgb0, 0x35, 2304),
        (BootRomKind::Cgb, 0x36, 2305),
        (BootRomKind::Agb, 0x37, 2306),
    ];
    for (kind, byte, len) in expected {
        let blob = roms.select(kind);
        assert_eq!(blob.len(), len);
        assert!(blob.iter().all(|b| *b == byte));
    }
}

#[test]
fn the_same_request_gets_the_same_image_every_time() {
    let roms = roms();
    let first = roms.select(BootRomKind::Cgb).to_vec();
    let second = roms.select(BootRomKind::Cgb).to_vec();
    assert_eq!(first, second);
    assert_eq!(first, vec![0x36; 2305]);
}

#[test]
fn the_early_dmg_boots_from_the_dmg_image() {
    let roms = roms();
    assert_eq!(roms.select(BootRomKind::Dmg0), roms.image(BootRomImage::Dmg));
    assert_eq!(roms.select(BootRomKind::Dmg), roms.image(BootRomImage::Dmg));
}

#[test]
fn images_are_handed_out_whole() {
    let roms = BootRoms::new(
        vec![1, 2, 3],
        vec![],
        vec![4],
        vec![5, 6],
        vec![7, 8, 9, 10],
        vec![11],
        vec![12, 13],
    );
    assert_eq!(roms.image(BootRomImage::Dmg), &[1, 2, 3]);
    assert_eq!(roms.image(BootRomImage::Mgb), &[] as &[u8]);
    assert_eq!(roms.image(BootRomImage::Sgb), &[4]);
    assert_eq!(roms.image(BootRomImage::Sgb2), &[5, 6]);
    assert_eq!(roms.image(BootRomImage::Cgb0), &[7, 8, 9, 10]);
    assert_eq!(roms.image(BootRomImage::Cgb), &[11]);
    assert_eq!(roms.image(BootRomImage::Agb), &[12, 13]);
    assert_eq!(roms.select(BootRomKind::Agb), &[12, 13]);
}
