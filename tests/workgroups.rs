use pathtracer::next_power_of_two;

#[test]
fn power_of_two_stays() {
    assert_eq!(next_power_of_two(1), 1);
    assert_eq!(next_power_of_two(2), 2);
    assert_eq!(next_power_of_two(64), 64);
    assert_eq!(next_power_of_two(0x8000_0000), 0x8000_0000);
}

#[test]
fn rounds_up_to_next_power() {
    assert_eq!(next_power_of_two(3), 4);
    assert_eq!(next_power_of_two(5), 8);
    assert_eq!(next_power_of_two(17), 32);
    assert_eq!(next_power_of_two(1000), 1024);
    assert_eq!(next_power_of_two(0x4000_0001), 0x8000_0000);
}

#[test]
fn workgroups_for_a_frame() {
    // a 320 x 240 frame in groups of 32 x 16
    assert_eq!(next_power_of_two(320 / 32), 16);
    assert_eq!(next_power_of_two(240 / 16), 16);
}
