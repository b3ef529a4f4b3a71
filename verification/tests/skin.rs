use mcadmin::backups::{
    calculate_completion_seconds, has_unlocked_backups, oldest_unlocked, plan_backup, BackupInfo,
    BackupPlan,
};
use mcadmin::skin::{
    file_extension, get_allowed_render_types, is_image, is_render_allowed, skin_url,
    RenderTypeChoice, SkinPositionChoice,
};

const STANDING: [SkinPositionChoice; 13] = [
    SkinPositionChoice::Default,
    SkinPositionChoice::Marching,
    SkinPositionChoice::Walking,
    SkinPositionChoice::Crouching,
    SkinPositionChoice::Crossed,
    SkinPositionChoice::CrissCross,
    SkinPositionChoice::Ultimate,
    SkinPositionChoice::Cheering,
    SkinPositionChoice::Relaxing,
    SkinPositionChoice::Trudging,
    SkinPositionChoice::Cowering,
    SkinPositionChoice::Pointing,
    SkinPositionChoice::Lunging,
];

fn backup(created_at: i64, is_locked: bool) -> BackupInfo {
    BackupInfo { created_at, completed_at: None, is_locked }
}

#[test]
fn standing_poses_allow_full_bust_and_face() {
    for pos in STANDING {
        assert_eq!(
            get_allowed_render_types(&pos),
            vec![RenderTypeChoice::Full, RenderTypeChoice::Bust, RenderTypeChoice::Face]
        );
    }
}

#[test]
fn other_poses_allow_their_own_crops() {
    assert_eq!(
        get_allowed_render_types(&SkinPositionChoice::Isometric),
        vec![
            RenderTypeChoice::Full,
            RenderTypeChoice::Bust,
            RenderTypeChoice::Face,
            RenderTypeChoice::Head,
        ]
    );
    assert_eq!(
        get_allowed_render_types(&SkinPositionChoice::Head),
        vec![RenderTypeChoice::Full]
    );
    assert_eq!(
        get_allowed_render_types(&SkinPositionChoice::Skin),
        vec![RenderTypeChoice::Default, RenderTypeChoice::Processed]
    );
}

#[test]
fn render_is_allowed_where_the_pose_offers_it() {
    assert!(is_render_allowed(&SkinPositionChoice::Walking, &RenderTypeChoice::Bust));
    assert!(!is_render_allowed(&SkinPositionChoice::Walking, &RenderTypeChoice::Head));
    assert!(is_render_allowed(&SkinPositionChoice::Isometric, &RenderTypeChoice::Head));
    assert!(!is_render_allowed(&SkinPositionChoice::Head, &RenderTypeChoice::Head));
    assert!(is_render_allowed(&SkinPositionChoice::Skin, &RenderTypeChoice::Processed));
    assert!(!is_render_allowed(&SkinPositionChoice::Skin, &RenderTypeChoice::Full));
}

#[test]
fn poses_and_crops_have_their_words() {
    let words = [
        "default", "marching", "walking", "crouching", "crossed", "criss_cross", "ultimate",
        "cheering", "relaxing", "trudging", "cowering", "pointing", "lunging",
    ];
    for (pos, word) in STANDING.iter().zip(words) {
        assert_eq!(pos.to_string(), word);
    }
    assert_eq!(SkinPositionChoice::Isometric.to_string(), "isometric");
    assert_eq!(SkinPositionChoice::Head.to_string(), "head");
    assert_eq!(SkinPositionChoice::Skin.to_string(), "skin");
    assert_eq!(RenderTypeChoice::Full.to_string(), "full");
    assert_eq!(RenderTypeChoice::Bust.to_string(), "bust");
    assert_eq!(RenderTypeChoice::Face.to_string(), "face");
    assert_eq!(RenderTypeChoice::Head.to_string(), "head");
    assert_eq!(RenderTypeChoice::Default.to_string(), "default");
    assert_eq!(RenderTypeChoice::Processed.to_string(), "processed");
}

#[test]
fn skin_url_names_pose_player_and_crop() {
    assert_eq!(
        skin_url(&SkinPositionChoice::CrissCross, "069a79f4", &RenderTypeChoice::Bust),
        "https://starlightskins.lunareclipse.studio/render/criss_cross/069a79f4/bust"
    );
}

#[test]
fn pictures_are_known_by_their_content_type() {
    assert!(is_image("image/png"));
    assert!(is_image("image/"));
    assert!(!is_image("text/html"));
    assert!(!is_image("Image/png"));
    assert_eq!(file_extension("image/png"), Some("png"));
    assert_eq!(file_extension("image/jpeg"), Some("jpg"));
    assert_eq!(file_extension("image/jpg"), Some("jpg"));
    assert_eq!(file_extension("image/webp"), Some("webp"));
    assert_eq!(file_extension("image/gif"), None);
    assert_eq!(file_extension("image/png; charset=utf-8"), None);
    assert_eq!(file_extension(""), None);
}

#[test]
fn unlocked_backups_are_found() {
    assert!(!has_unlocked_backups(&vec![]));
    assert!(!has_unlocked_backups(&vec![backup(1, true), backup(2, true)]));
    assert!(has_unlocked_backups(&vec![backup(1, true), backup(2, false)]));
}

#[test]
fn the_oldest_unlocked_backup_gives_way() {
    assert_eq!(oldest_unlocked(&vec![]), None);
    assert_eq!(oldest_unlocked(&vec![backup(1, true)]), None);
    assert_eq!(
        oldest_unlocked(&vec![backup(5, false), backup(3, false), backup(4, false)]),
        Some(1)
    );
    // A locked backup stays, however old.
    assert_eq!(
        oldest_unlocked(&vec![backup(1, true), backup(9, false), backup(7, false)]),
        Some(2)
    );
    // Of two as old, the first.
    assert_eq!(
        oldest_unlocked(&vec![backup(4, false), backup(2, false), backup(2, false)]),
        Some(1)
    );
    assert_eq!(
        oldest_unlocked(&vec![backup(i64::MIN, false), backup(i64::MAX, false)]),
        Some(0)
    );
}

#[test]
fn backup_plans() {
    let some = vec![backup(3, true), backup(2, false), backup(1, true)];
    assert_eq!(plan_backup(0, &some), BackupPlan::NotAllowed);
    assert_eq!(plan_backup(0, &vec![]), BackupPlan::NotAllowed);
    assert_eq!(plan_backup(5, &some), BackupPlan::Create);
    assert_eq!(plan_backup(2, &some), BackupPlan::Create);
    assert_eq!(plan_backup(3, &some), BackupPlan::ReplaceOldest(1));
    assert_eq!(
        plan_backup(2, &vec![backup(3, true), backup(1, true)]),
        BackupPlan::NothingToReplace
    );
}

#[test]
fn completion_takes_the_seconds_between() {
    let done = BackupInfo { created_at: 100, completed_at: Some(142), is_locked: false };
    assert_eq!(calculate_completion_seconds(&done), Some(42));
    assert_eq!(calculate_completion_seconds(&backup(100, false)), None);
    let odd = BackupInfo { created_at: 100, completed_at: Some(90), is_locked: false };
    assert_eq!(calculate_completion_seconds(&odd), Some(-10));
    let far = BackupInfo { created_at: i64::MIN, completed_at: Some(1), is_locked: false };
    assert_eq!(calculate_completion_seconds(&far), None);
}
