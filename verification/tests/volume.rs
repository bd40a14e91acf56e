use std::str::FromStr;
use wigglyair::volume::{Volume, VolumeError};

#[test]
fn volume_defaults_to_full() {
    assert_eq!(Volume::default().get(), 100);
    assert_eq!(Volume::MAX, 100);
}

#[test]
fn test_volume_up_stays_below_100() {
    for amount in 0..=255u8 {
        let mut v = Volume::default();
        let result = v.up(amount);
        assert!(result <= 100);
        assert!(v.get() <= 100);
    }
}

#[test]
fn test_volume_down_stays_below_100() {
    for amount in 0..=255u8 {
        let mut v = Volume::default();
        let result = v.down(amount);
        assert!(result <= 100);
        assert!(v.get() <= 100);
    }
}

#[test]
fn volume_up_and_down_return_the_previous_level() {
    let mut v = Volume::try_from(40u8).unwrap();
    assert_eq!(v.up(5), 40);
    assert_eq!(v.get(), 45);
    assert_eq!(v.down(10), 45);
    assert_eq!(v.get(), 35);
    assert_eq!(v.up(0), 35);
    assert_eq!(v.get(), 35);
}

#[test]
fn volume_saturates_at_both_ends() {
    let mut v = Volume::try_from(95u8).unwrap();
    assert_eq!(v.up(10), 95);
    assert_eq!(v.get(), 100);
    assert_eq!(v.up(255), 100);
    assert_eq!(v.get(), 100);
    let mut w = Volume::try_from(3u8).unwrap();
    assert_eq!(w.down(4), 3);
    assert_eq!(w.get(), 0);
    assert_eq!(w.down(255), 0);
    assert_eq!(w.get(), 0);
}

#[test]
fn volume_stays_in_range_from_every_level() {
    for start in 0..=100u8 {
        for amount in [0u8, 1, 10, 99, 100, 101, 200, 255] {
            let mut up = Volume::try_from(start).unwrap();
            assert_eq!(up.up(amount), start);
            assert_eq!(up.get() as u16, (start as u16 + amount as u16).min(100));
            let mut down = Volume::try_from(start).unwrap();
            assert_eq!(down.down(amount), start);
            assert_eq!(down.get(), start.saturating_sub(amount));
        }
    }
}

#[test]
fn volume_set_accepts_up_to_100() {
    let mut v = Volume::default();
    assert_eq!(v.set(0), Ok(()));
    assert_eq!(v.get(), 0);
    assert_eq!(v.set(100), Ok(()));
    assert_eq!(v.get(), 100);
    assert_eq!(v.set(57), Ok(()));
    assert_eq!(v.get(), 57);
}

#[test]
fn volume_set_refuses_above_100() {
    let mut v = Volume::try_from(20u8).unwrap();
    assert_eq!(v.set(101), Err(VolumeError::InvalidValue(101)));
    assert_eq!(v.get(), 20);
    assert_eq!(v.set(255), Err(VolumeError::InvalidValue(255)));
    assert_eq!(v.get(), 20);
}

#[test]
fn volume_set_from_string_trims_and_parses() {
    let mut v = Volume::default();
    assert_eq!(v.set_from_string("50"), Ok(()));
    assert_eq!(v.get(), 50);
    assert_eq!(v.set_from_string("  7\n"), Ok(()));
    assert_eq!(v.get(), 7);
    assert_eq!(v.set_from_string("\t+100 "), Ok(()));
    assert_eq!(v.get(), 100);
    assert_eq!(v.set_from_string("007"), Ok(()));
    assert_eq!(v.get(), 7);
    assert_eq!(v.set_from_string("\u{a0}0\u{3000}"), Ok(()));
    assert_eq!(v.get(), 0);
}

#[test]
fn volume_set_from_string_refuses_what_is_no_number() {
    let mut v = Volume::try_from(33u8).unwrap();
    for text in ["", "   ", "abc", "5 0", "-1", "+", "1.5", "256", "99999999999999999999999", "５"] {
        assert_eq!(
            v.set_from_string(text),
            Err(VolumeError::InvalidString(text.to_string()))
        );
        assert_eq!(v.get(), 33);
    }
}

#[test]
fn volume_set_from_string_refuses_levels_above_100() {
    let mut v = Volume::try_from(33u8).unwrap();
    assert_eq!(v.set_from_string("101"), Err(VolumeError::InvalidValue(101)));
    assert_eq!(v.set_from_string(" 255 "), Err(VolumeError::InvalidValue(255)));
    assert_eq!(v.get(), 33);
}

#[test]
fn volume_try_from_u8() {
    assert_eq!(Volume::try_from(0u8).unwrap().get(), 0);
    assert_eq!(Volume::try_from(100u8).unwrap().get(), 100);
    assert_eq!(Volume::try_from(101u8).err(), Some(VolumeError::InvalidValue(101)));
}

#[test]
fn volume_try_from_string() {
    assert_eq!(Volume::try_from(" 42 ".to_string()).unwrap().get(), 42);
    assert_eq!(
        Volume::try_from("loud".to_string()).err(),
        Some(VolumeError::InvalidString("loud".to_string()))
    );
    assert_eq!(
        Volume::try_from("200".to_string()).err(),
        Some(VolumeError::InvalidValue(200))
    );
}

#[test]
fn volume_from_str() {
    assert_eq!(Volume::from_str("12").unwrap().get(), 12);
    assert_eq!("99".parse::<Volume>().unwrap().get(), 99);
    assert_eq!(
        Volume::from_str("x").err(),
        Some(VolumeError::InvalidString("x".to_string()))
    );
    assert_eq!(Volume::from_str("150").err(), Some(VolumeError::InvalidValue(150)));
}
