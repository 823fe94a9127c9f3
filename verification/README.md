# pinenote_dbus_service

A DBus service for the Pine64 PineNote that exposes controls of the e-ink
display controller (`rockchip_ebc`), the Bluetooth pen, the USB gadget and
travel mode on the system bus (`org.pinenote.ebc`, `.pen`, `.usb`, `.misc`).

The library (`src/`) holds the service's decisions, verified with Verus:

- `sys_handler`: the driver's parameter files, what each setter writes and
  what each getter reads back (`SysfsWrite` is a write to perform);
- `writing_mode`: entering and leaving the pen-writing display setup;
- `pen`: pen scanning, address registration and automatic connection;
- `misc`: travel mode and display-mode requests;
- `ebc_ioctl`: the off-screen image request's payload;
- `text`, `decimal`: trimming, line splitting, and decimal text of numbers.

The program (`app/`) does the bus, file, process and device I/O around it.
