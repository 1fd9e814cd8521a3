use kozo_policy::delegation::{
    calculate_attenuated_rights, extract_path, is_path_scoped, resolve_system_capability, Rights,
    RIGHT_GRANT, RIGHT_MAP, RIGHT_READ, RIGHT_WRITE, SYSTEM_CAMERA_CAP, SYSTEM_FS_HOME_CAP,
    SYSTEM_GPU_RENDER_CAP, SYSTEM_NET_LOCAL_CAP,
};
use kozo_policy::error::Error;

#[test]
fn resolves_known_names() {
    assert_eq!(resolve_system_capability("camera.use"), Ok(SYSTEM_CAMERA_CAP));
    assert_eq!(resolve_system_capability("camera.record"), Ok(SYSTEM_CAMERA_CAP));
    assert_eq!(resolve_system_capability("network.local"), Ok(SYSTEM_NET_LOCAL_CAP));
    assert_eq!(resolve_system_capability("files.home.write"), Ok(SYSTEM_FS_HOME_CAP));
    assert_eq!(resolve_system_capability("gpu.compute"), Ok(SYSTEM_GPU_RENDER_CAP));
}

#[test]
fn forbidden_and_unknown_names() {
    assert_eq!(resolve_system_capability("network.inbound"), Err(Error::AccessDenied));
    assert_eq!(resolve_system_capability("files.system.write"), Err(Error::AccessDenied));
    assert_eq!(resolve_system_capability("camera.usex"), Err(Error::Invalid));
    assert_eq!(resolve_system_capability("camera.us"), Err(Error::Invalid));
    assert_eq!(resolve_system_capability(""), Err(Error::Invalid));
}

#[test]
fn attenuation() {
    assert_eq!(calculate_attenuated_rights("camera.use"), Rights(RIGHT_READ | RIGHT_WRITE));
    assert_eq!(calculate_attenuated_rights("files.home.write"), Rights(RIGHT_READ | RIGHT_WRITE));
    assert_eq!(
        calculate_attenuated_rights("x.grant"),
        Rights(RIGHT_READ | RIGHT_WRITE | RIGHT_GRANT)
    );
    assert_eq!(calculate_attenuated_rights("gpu.map"), Rights(RIGHT_READ | RIGHT_MAP));
    assert_eq!(calculate_attenuated_rights("files.home.read"), Rights(RIGHT_READ));
    assert_eq!(calculate_attenuated_rights("files.home.read").bits(), 1);
}

#[test]
fn path_scope() {
    assert!(is_path_scoped("files.home.read"));
    assert!(!is_path_scoped("camera.use"));
    assert_eq!(extract_path("files.home.read"), "/home/user");
    assert_eq!(extract_path("files.system.read"), "/etc");
    assert_eq!(extract_path("files.temp.write"), "/tmp");
    assert_eq!(extract_path("files.download.read"), "/");
}

#[test]
fn kernel_error_codes() {
    assert_eq!(Error::from_raw(-1), Error::Invalid);
    assert_eq!(Error::from_raw(-2), Error::NoCap);
    assert_eq!(Error::from_raw(-3), Error::NoMem);
    assert_eq!(Error::from_raw(-4), Error::AccessDenied);
    assert_eq!(Error::from_raw(-99), Error::Invalid);
    assert_eq!(Error::NoMem.raw(), -3);
}
