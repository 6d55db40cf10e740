//! Interface handles and constants of the Windows Media library sharing
//! services (`Windows.Win32.Media.LibrarySharingServices`).
//!
//! An interface handle is an opaque COM interface pointer. The library holds
//! it by its address, so that it stays a plain, copyable value.

use vstd::prelude::*;

verus! {

/// Handle of an `IWindowsMediaLibrarySharingDevice` interface, held by address.
#[derive(Copy)]
pub struct IWindowsMediaLibrarySharingDevice(pub usize);

impl Clone for IWindowsMediaLibrarySharingDevice {
    fn clone(&self) -> (r: Self)
        ensures
            r == *self,
    {
        *self
    }
}

/// Handle of an `IWindowsMediaLibrarySharingDeviceProperties` interface, held by address.
#[derive(Copy)]
pub struct IWindowsMediaLibrarySharingDeviceProperties(pub usize);

impl Clone for IWindowsMediaLibrarySharingDeviceProperties {
    fn clone(&self) -> (r: Self)
        ensures
            r == *self,
    {
        *self
    }
}

/// Handle of an `IWindowsMediaLibrarySharingDeviceProperty` interface, held by address.
#[derive(Copy)]
pub struct IWindowsMediaLibrarySharingDeviceProperty(pub usize);

impl Clone for IWindowsMediaLibrarySharingDeviceProperty {
    fn clone(&self) -> (r: Self)
        ensures
            r == *self,
    {
        *self
    }
}

/// Handle of an `IWindowsMediaLibrarySharingDevices` interface, held by address.
#[derive(Copy)]
pub struct IWindowsMediaLibrarySharingDevices(pub usize);

impl Clone for IWindowsMediaLibrarySharingDevices {
    fn clone(&self) -> (r: Self)
        ensures
            r == *self,
    {
        *self
    }
}

/// Handle of an `IWindowsMediaLibrarySharingServices` interface, held by address.
#[derive(Copy)]
pub struct IWindowsMediaLibrarySharingServices(pub usize);

impl Clone for IWindowsMediaLibrarySharingServices {
    fn clone(&self) -> (r: Self)
        ensures
            r == *self,
    {
        *self
    }
}

/// Authorization state of a sharing device (a 32-bit enumeration value).
#[derive(Copy)]
pub struct WindowsMediaLibrarySharingDeviceAuthorizationStatus(pub i32);

impl Clone for WindowsMediaLibrarySharingDeviceAuthorizationStatus {
    fn clone(&self) -> (r: Self)
        ensures
            r == *self,
    {
        *self
    }
}

/// The device's authorization is not known (the value 0).
#[allow(non_snake_case)]
pub fn DEVICE_AUTHORIZATION_UNKNOWN() -> (r: WindowsMediaLibrarySharingDeviceAuthorizationStatus)
    ensures
        r.0 == 0,
{
    WindowsMediaLibrarySharingDeviceAuthorizationStatus(0)
}

/// The device is allowed to access the shared library (the value 1).
#[allow(non_snake_case)]
pub fn DEVICE_AUTHORIZATION_ALLOWED() -> (r: WindowsMediaLibrarySharingDeviceAuthorizationStatus)
    ensures
        r.0 == 1,
{
    WindowsMediaLibrarySharingDeviceAuthorizationStatus(1)
}

/// The device is denied access to the shared library (the value 2).
#[allow(non_snake_case)]
pub fn DEVICE_AUTHORIZATION_DENIED() -> (r: WindowsMediaLibrarySharingDeviceAuthorizationStatus)
    ensures
        r.0 == 2,
{
    WindowsMediaLibrarySharingDeviceAuthorizationStatus(2)
}

/// A GUID by its four fields, as Windows lays it out.
#[derive(Copy, Clone, Debug)]
pub struct Guid {
    pub data1: u32,
    pub data2: u16,
    pub data3: u16,
    pub data4: [u8; 8],
}

/// The class id of the Windows Media library sharing services,
/// `AD581B00-7B64-4E59-A38D-D2C5BF51DDB3`.
#[allow(non_snake_case)]
pub fn WindowsMediaLibrarySharingServices() -> (r: Guid)
    ensures
        r.data1 == 0xAD58_1B00,
        r.data2 == 0x7B64,
        r.data3 == 0x4E59,
        r.data4@ == seq![0xA3u8, 0x8D, 0xD2, 0xC5, 0xBF, 0x51, 0xDD, 0xB3],
{
    Guid {
        data1: 0xAD58_1B00,
        data2: 0x7B64,
        data3: 0x4E59,
        data4: [0xA3, 0x8D, 0xD2, 0xC5, 0xBF, 0x51, 0xDD, 0xB3],
    }
}

} // verus!
