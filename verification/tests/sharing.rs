use riddle_metadata::sharing::{
    IWindowsMediaLibrarySharingDevice, IWindowsMediaLibrarySharingDeviceProperties,
    IWindowsMediaLibrarySharingDeviceProperty, IWindowsMediaLibrarySharingDevices,
    IWindowsMediaLibrarySharingServices, WindowsMediaLibrarySharingDeviceAuthorizationStatus,
    DEVICE_AUTHORIZATION_ALLOWED, DEVICE_AUTHORIZATION_DENIED, DEVICE_AUTHORIZATION_UNKNOWN,
    WindowsMediaLibrarySharingServices,
};

#[test]
fn interface_handles_clone_to_the_same_address() {
    let a = IWindowsMediaLibrarySharingDevice(0x1000);
    assert_eq!(a.clone().0, 0x1000);
    let b = IWindowsMediaLibrarySharingDeviceProperties(0x2000);
    assert_eq!(b.clone().0, 0x2000);
    let c = IWindowsMediaLibrarySharingDeviceProperty(0x3000);
    assert_eq!(c.clone().0, 0x3000);
    let d = IWindowsMediaLibrarySharingDevices(0);
    assert_eq!(d.clone().0, 0);
    let e = IWindowsMediaLibrarySharingServices(usize::MAX);
    assert_eq!(e.clone().0, usize::MAX);
}

#[test]
fn authorization_status_values() {
    assert_eq!(DEVICE_AUTHORIZATION_UNKNOWN().0, 0);
    assert_eq!(DEVICE_AUTHORIZATION_ALLOWED().0, 1);
    assert_eq!(DEVICE_AUTHORIZATION_DENIED().0, 2);
    let s = WindowsMediaLibrarySharingDeviceAuthorizationStatus(-7);
    assert_eq!(s.clone().0, -7);
}

#[test]
fn sharing_services_class_id() {
    let g = WindowsMediaLibrarySharingServices();
    assert_eq!(g.data1, 2908232448);
    assert_eq!(g.data2, 31588);
    assert_eq!(g.data3, 20057);
    assert_eq!(g.data4, [163, 141, 210, 197, 191, 81, 221, 179]);
}
