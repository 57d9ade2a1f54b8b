use entropy_sdk::entity::Guest;
use entropy_sdk::entity::GuestInfo;
use entropy_sdk::entity::Player;
use entropy_sdk::entity::PlayerInfo;

#[test]
fn player_and_its_public_projection() {
    let p = Player {
        password: "123456".to_string(),
        name: "ada".to_string(),
        id: 31,
    };
    let info = PlayerInfo {
        id: p.id,
        name: p.name.clone(),
    };
    assert_eq!(info.id, 31);
    assert_eq!(info.name, "ada");
    assert_eq!(p.clone(), p);
}

#[test]
fn guest_snapshot_is_plain_data() {
    let g = Guest {
        id: 1,
        energy: 12,
        pos: (-3, 8),
        temperature: -20,
        master_id: 31,
    };
    let copy = g;
    assert_eq!(copy, g);
    assert_eq!(copy.pos, (-3, 8));
}

#[test]
fn guest_info_carries_no_energy_and_a_coarsened_temperature() {
    let seen = GuestInfo {
        id: 2,
        temperature: -20,
        pos: (4, 4),
        master_id: 9,
    };
    assert_eq!(seen.temperature, -20i16);
    assert_eq!(seen.clone(), seen);
}
