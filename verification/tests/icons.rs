use scatto::icon::{iter_icons, pick_best, surface_from_icon, NoUsableIcon};

fn image(w: u32, h: u32, px: u32) -> Vec<u32> {
    let mut v = vec![w, h];
    v.extend(std::iter::repeat(px).take((w * h) as usize));
    v
}

#[test]
fn images_follow_each_other() {
    let raw = [image(2, 1, 7), image(1, 3, 8)].concat();
    let icons = iter_icons(&raw);
    assert_eq!(icons.len(), 2);
    assert_eq!((icons[0].w, icons[0].h, icons[0].pixels), (2, 1, &[7, 7][..]));
    assert_eq!((icons[1].w, icons[1].h, icons[1].pixels), (1, 3, &[8, 8, 8][..]));
}

#[test]
fn images_end_at_the_first_broken_one() {
    assert_eq!(iter_icons(&[]).len(), 0);
    assert_eq!(iter_icons(&[1]).len(), 0);
    assert_eq!(iter_icons(&[0, 1, 9]).len(), 0);
    assert_eq!(iter_icons(&[1, 0, 9]).len(), 0);
    assert_eq!(iter_icons(&[2, 2, 1, 1, 1]).len(), 0);
    assert_eq!(iter_icons(&[u32::MAX, u32::MAX, 1]).len(), 0);
    let raw = [image(1, 1, 5), vec![9, 9, 1], image(1, 1, 6)].concat();
    assert_eq!(iter_icons(&raw).len(), 1);
}

#[test]
fn closest_image_is_chosen() {
    let raw = [image(16, 16, 1), image(48, 48, 2), image(32, 32, 3)].concat();
    assert_eq!(pick_best(&raw, 36).unwrap().w, 32);
    assert_eq!(pick_best(&raw, 48).unwrap().w, 48);
    assert_eq!(pick_best(&raw, 1).unwrap().w, 16);
    assert_eq!(pick_best(&raw, 100).unwrap().w, 48);
    assert!(pick_best(&[], 36).is_none());
}

#[test]
fn too_small_counts_twice_and_ties_go_to_the_first() {
    // 8 below counts 16, 16 above counts 16: the first one stays.
    let raw = [image(28, 1, 1), image(52, 1, 2)].concat();
    assert_eq!(pick_best(&raw, 36).unwrap().w, 28);
    let raw = [image(52, 1, 2), image(28, 1, 1)].concat();
    assert_eq!(pick_best(&raw, 36).unwrap().w, 52);
    // Equally far: the larger one.
    let raw = [image(28, 1, 1), image(44, 1, 2)].concat();
    assert_eq!(pick_best(&raw, 36).unwrap().w, 44);
    // The larger side counts.
    let raw = [image(1, 36, 1), image(30, 30, 2)].concat();
    assert_eq!(pick_best(&raw, 36).unwrap().h, 36);
}

#[test]
fn pixels_are_premultiplied() {
    let raw = [2, 1, 0x80ff_4001, 0xff12_3456];
    let image = surface_from_icon(&raw, 36).unwrap();
    assert_eq!((image.w, image.h), (2, 1));
    assert_eq!(image.data, vec![0, 32, 128, 128, 0x56, 0x34, 0x12, 0xff]);
    for px in [0x00ff_ffff, 0x01ff_ffff, 0x7f80_81ff, 0xfeff_00ff] {
        let data = surface_from_icon(&[1, 1, px], 36).unwrap().data;
        assert!(data[0] <= data[3] && data[1] <= data[3] && data[2] <= data[3]);
    }
}

#[test]
fn no_image_no_surface() {
    assert_eq!(surface_from_icon(&[], 36).unwrap_err(), NoUsableIcon);
    assert_eq!(surface_from_icon(&[3, 3, 0], 36).unwrap_err(), NoUsableIcon);
}
