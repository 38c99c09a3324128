use assistant_core::voice::VoiceTrainingManager;

#[test]
fn profiles_are_stored_by_user() {
    let mut vm = VoiceTrainingManager::new("/tmp/voice/profiles.json");
    assert_eq!(vm.storage_path(), "/tmp/voice/profiles.json");
    assert!(vm.get_profile("u1").is_none());
    vm.create_profile("u1".to_string(), "Ada".to_string(), 5);
    vm.create_profile("u2".to_string(), "Bob".to_string(), 6);
    vm.create_profile("u1".to_string(), "Ada L".to_string(), 7);
    let p = vm.get_profile("u1").unwrap();
    assert_eq!(p.name, "Ada L");
    assert_eq!(p.created_at, 7);
    assert_eq!(vm.get_profile("u2").unwrap().name, "Bob");
}
