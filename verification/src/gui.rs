//! The decisions behind the graphical interface: the entries of the device
//! menu, which device a menu entry selects, the terminal log, and the
//! command that restarts the program with root privileges.
use vstd::prelude::*;
use crate::text::{chars_of, starts_with, string_of};
use crate::units::{format_size, human_size};
use crate::usb::UsbDevice;

verus! {

/// The menu entry of a device: "/dev/NAME - MODEL (SIZE)".
pub open spec fn menu_entry(d: UsbDevice) -> Seq<char> {
    "/dev/"@ + d.name@ + " - "@ + d.model@ + " ("@ + human_size(d.size as nat) + ")"@
}

/// The entries of the device menu: one per device, or a single entry saying
/// that none was found.
pub open spec fn menu_entries(ds: Seq<UsbDevice>) -> Seq<Seq<char>> {
    if ds.len() == 0 {
        seq!["No USB devices found"@]
    } else {
        ds.map_values(|d: UsbDevice| menu_entry(d))
    }
}

/// The entries of the device menu.
pub fn device_menu_entries(devices: &[UsbDevice]) -> (r: Vec<String>)
    ensures
        r.deep_view() == menu_entries(devices@),
{
    let mut entries: Vec<String> = Vec::new();
    let mut i: usize = 0;
    while i < devices.len()
        invariant
            i <= devices.len(),
            entries.deep_view() =~= devices@.take(i as int).map_values(|d: UsbDevice| menu_entry(d)),
        decreases devices.len() - i,
    {
        let d = &devices[i];
        let mut e = String::from_str("/dev/");
        e.append(d.name.as_str());
        e.append(" - ");
        e.append(d.model.as_str());
        e.append(" (");
        let size = format_size(d.size);
        e.append(size.as_str());
        e.append(")");
        let ghost before = entries.deep_view();
        entries.push(e);
        assert(entries.deep_view() =~= before.push(menu_entry(devices@[i as int])));
        assert(devices@.take((i + 1) as int).map_values(|d: UsbDevice| menu_entry(d)) =~= devices@.take(
            i as int,
        ).map_values(|d: UsbDevice| menu_entry(d)).push(menu_entry(devices@[i as int])));
        i = i + 1;
    }
    assert(devices@.take(devices.len() as int) =~= devices@);
    if entries.len() == 0 {
        entries.push(String::from_str("No USB devices found"));
        assert(entries.deep_view() =~= menu_entries(devices@));
    }
    entries
}

/// The part of `s` before the first occurrence of `pat` (all of `s` when it
/// does not occur): the first piece of `str::split`.
pub open spec fn before_first(s: Seq<char>, pat: Seq<char>) -> Seq<char>
    decreases s.len(),
{
    if s.len() == 0 {
        s
    } else if starts_with(s, pat) {
        seq![]
    } else {
        seq![s[0]] + before_first(s.drop_first(), pat)
    }
}

/// `s` with every occurrence of `pat` removed, scanning from the left
/// (`str::replace(pat, "")`).
pub open spec fn remove_all(s: Seq<char>, pat: Seq<char>) -> Seq<char>
    decreases s.len(),
{
    if s.len() == 0 {
        s
    } else if pat.len() > 0 && starts_with(s, pat) {
        remove_all(s.skip(pat.len() as int), pat)
    } else {
        seq![s[0]] + remove_all(s.drop_first(), pat)
    }
}

/// Whether `v[at..]` begins with `pat`.
fn prefix_at(v: &Vec<char>, at: usize, pat: &Vec<char>) -> (b: bool)
    requires
        at <= v.len(),
    ensures
        b == starts_with(v@.skip(at as int), pat@),
{
    if pat.len() > v.len() - at {
        return false;
    }
    let mut j: usize = 0;
    while j < pat.len()
        invariant
            j <= pat.len(),
            at + pat.len() <= v.len(),
            forall|k: int| 0 <= k < j ==> v@[at + k] == pat@[k],
        decreases pat.len() - j,
    {
        if v[at + j] != pat[j] {
            assert(v@.skip(at as int).take(pat.len() as int)[j as int] != pat@[j as int]);
            return false;
        }
        j = j + 1;
    }
    assert(v@.skip(at as int).take(pat.len() as int) =~= pat@);
    true
}

/// The device that a menu entry selects: the entry up to " -", with "/dev/"
/// removed, is the device's name, and its path is "/dev/NAME". Nothing is
/// selected while no image is chosen ("No ISO selected") or while the menu
/// is empty or still loading ("Loading devices...").
pub open spec fn flash_target(iso: Seq<char>, entry: Seq<char>) -> Option<(Seq<char>, Seq<char>)> {
    if iso == "No ISO selected"@ || entry.len() == 0 || entry == "Loading devices..."@ {
        None
    } else {
        let name = remove_all(before_first(entry, " -"@), "/dev/"@);
        Some((name, "/dev/"@ + name))
    }
}

/// The name and path of the device that a menu entry selects, if any.
pub fn select_flash_target(iso: &str, entry: &str) -> (r: Option<(String, String)>)
    ensures
        match flash_target(iso@, entry@) {
            Some((name, path)) => r matches Some((n, p)) && n@ == name && p@ == path,
            None => r is None,
        },
{
    let iso_chars = chars_of(iso);
    let none_chosen = chars_of("No ISO selected");
    let loading = chars_of("Loading devices...");
    let v = chars_of(entry);
    if same_chars(&iso_chars, &none_chosen) || v.len() == 0 || same_chars(&v, &loading) {
        return None;
    }
    let sep = chars_of(" -");
    let dev = chars_of("/dev/");
    proof {
        reveal_strlit(" -");
        reveal_strlit("/dev/");
    }
    // The entry up to the first " -".
    let mut i: usize = 0;
    assert(v@.take(0) =~= Seq::<char>::empty());
    assert(v@.skip(0) =~= v@);
    while i < v.len() && !prefix_at(&v, i, &sep)
        invariant
            i <= v.len(),
            sep@ == " -"@,
            before_first(v@, sep@) == v@.take(i as int) + before_first(v@.skip(i as int), sep@),
        decreases v.len() - i,
    {
        assert(v@.skip(i as int).drop_first() =~= v@.skip(i + 1));
        assert(v@.take((i + 1) as int) =~= v@.take(i as int).push(v@[i as int]));
        assert(v@.skip(i as int)[0] == v@[i as int]);
        i = i + 1;
    }
    assert(before_first(v@.skip(i as int), sep@) =~= Seq::<char>::empty());
    let head_end = i;
    // Remove every "/dev/" from it.
    let mut name: Vec<char> = Vec::new();
    let ghost head = v@.take(head_end as int);
    let mut j: usize = 0;
    assert(head.skip(0) =~= head);
    while j < head_end
        invariant
            j <= head_end <= v.len(),
            head == v@.take(head_end as int),
            dev@ == "/dev/"@,
            dev@.len() == 5,
            remove_all(head, dev@) == name@ + remove_all(head.skip(j as int), dev@),
        decreases head_end - j,
    {
        let ghost rest = head.skip(j as int);
        if dev.len() <= head_end - j && prefix_at(&v, j, &dev) {
            assert(rest.take(5) =~= v@.skip(j as int).take(5));
            assert(rest.skip(5) =~= head.skip(j + 5));
            j = j + 5;
        } else {
            proof {
                if dev.len() <= head_end - j {
                    assert(rest.take(5) =~= v@.skip(j as int).take(5));
                }
            }
            assert(rest.drop_first() =~= head.skip(j + 1));
            assert(rest[0] == v@[j as int]);
            name.push(v[j]);
            j = j + 1;
        }
    }
    assert(head.skip(head_end as int) =~= Seq::<char>::empty());
    assert(name@ =~= remove_all(head, dev@));
    let n = string_of(&name, 0, name.len());
    let mut p = String::from_str("/dev/");
    p.append(n.as_str());
    assert(name@.subrange(0, name.len() as int) =~= name@);
    Some((n, p))
}

/// Whether two character vectors are equal.
fn same_chars(a: &Vec<char>, b: &Vec<char>) -> (r: bool)
    ensures
        r == (a@ == b@),
{
    if a.len() != b.len() {
        return false;
    }
    let mut i: usize = 0;
    while i < a.len()
        invariant
            i <= a.len() == b.len(),
            forall|k: int| 0 <= k < i ==> a@[k] == b@[k],
        decreases a.len() - i,
    {
        if a[i] != b[i] {
            return false;
        }
        i = i + 1;
    }
    assert(a@ =~= b@);
    true
}

/// The terminal log after one more message: the message and a line feed
/// are appended.
pub fn append_log(logs: &mut String, message: &str)
    ensures
        final(logs)@ == old(logs)@ + message@ + seq!['\n'],
{
    logs.append(message);
    logs.push('\n');
}

/// The status line once a write has ended: success, or the error that
/// stopped it.
pub fn write_outcome_status(error: Option<&str>) -> (s: String)
    ensures
        match error {
            None => s@ == "✅ Write completed successfully!"@,
            Some(e) => s@ == "❌ Error: "@ + e@,
        },
{
    match error {
        None => "✅ Write completed successfully!".to_owned(),
        Some(e) => {
            let mut s = "❌ Error: ".to_owned();
            s.append(e);
            s
        },
    }
}

/// The terminal log after a write failed with `error`: the error is
/// appended on a line of its own, after an empty line.
pub fn log_write_error(logs: &mut String, error: &str)
    ensures
        final(logs)@ == old(logs)@ + "\nERROR: "@ + error@ + seq!['\n'],
{
    logs.append("\nERROR: ");
    logs.append(error);
    logs.push('\n');
}

/// The `pkexec` arguments that restart the program as root: `env`, then the
/// display-related variables that are set (DISPLAY, XAUTHORITY or else the
/// default ~/.Xauthority when HOME is known, WAYLAND_DISPLAY,
/// XDG_RUNTIME_DIR, DBUS_SESSION_BUS_ADDRESS), then the program's own
/// arguments with the first replaced by the path of the executable.
pub open spec fn elevation_args(
    exe: Seq<char>,
    args: Seq<Seq<char>>,
    display: Seq<char>,
    xauthority: Seq<char>,
    wayland_display: Seq<char>,
    xdg_runtime_dir: Seq<char>,
    dbus_session: Seq<char>,
    home: Option<Seq<char>>,
) -> Seq<Seq<char>> {
    seq!["env"@] + (if display.len() > 0 {
        seq!["DISPLAY="@ + display]
    } else {
        seq![]
    }) + (if xauthority.len() > 0 {
        seq!["XAUTHORITY="@ + xauthority]
    } else {
        match home {
            Some(h) => seq!["XAUTHORITY="@ + h + "/.Xauthority"@],
            None => seq![],
        }
    }) + (if wayland_display.len() > 0 {
        seq!["WAYLAND_DISPLAY="@ + wayland_display]
    } else {
        seq![]
    }) + (if xdg_runtime_dir.len() > 0 {
        seq!["XDG_RUNTIME_DIR="@ + xdg_runtime_dir]
    } else {
        seq![]
    }) + (if dbus_session.len() > 0 {
        seq!["DBUS_SESSION_BUS_ADDRESS="@ + dbus_session]
    } else {
        seq![]
    }) + (if args.len() > 0 {
        args.update(0, exe)
    } else {
        seq![exe]
    })
}

/// Law: the elevated command runs `env`; the display (when set) comes
/// first, then the X authority: the XAUTHORITY that is set, whatever HOME
/// is, and only when it is empty the ".Xauthority" file in HOME; the
/// program's own arguments come last, with the executable's path first.
pub proof fn lemma_elevation_passes_display_and_authority(
    exe: Seq<char>,
    args: Seq<Seq<char>>,
    display: Seq<char>,
    xauthority: Seq<char>,
    wayland_display: Seq<char>,
    xdg_runtime_dir: Seq<char>,
    dbus_session: Seq<char>,
    home: Option<Seq<char>>,
)
    ensures
        ({
            let r = elevation_args(
                exe,
                args,
                display,
                xauthority,
                wayland_display,
                xdg_runtime_dir,
                dbus_session,
                home,
            );
            let p: int = if display.len() > 0 { 2 } else { 1 };
            let n: int = if args.len() > 0 { args.len() as int } else { 1 };
            &&& r[0] == "env"@
            &&& display.len() > 0 ==> r[1] == "DISPLAY="@ + display
            &&& xauthority.len() > 0 ==> r[p] == "XAUTHORITY="@ + xauthority
            &&& xauthority.len() == 0 && home is Some ==> r[p] == "XAUTHORITY="@ + home.unwrap()
                + "/.Xauthority"@
            &&& r.len() >= p + n
            &&& r[r.len() - n] == exe
            &&& forall|k: int| 1 <= k < n ==> r[r.len() - n + k] == args[k]
        }),
{
    let d: Seq<Seq<char>> = if display.len() > 0 { seq!["DISPLAY="@ + display] } else { seq![] };
    let x: Seq<Seq<char>> = if xauthority.len() > 0 {
        seq!["XAUTHORITY="@ + xauthority]
    } else {
        match home {
            Some(h) => seq!["XAUTHORITY="@ + h + "/.Xauthority"@],
            None => seq![],
        }
    };
    let w: Seq<Seq<char>> = if wayland_display.len() > 0 {
        seq!["WAYLAND_DISPLAY="@ + wayland_display]
    } else {
        seq![]
    };
    let g: Seq<Seq<char>> = if xdg_runtime_dir.len() > 0 {
        seq!["XDG_RUNTIME_DIR="@ + xdg_runtime_dir]
    } else {
        seq![]
    };
    let b: Seq<Seq<char>> = if dbus_session.len() > 0 {
        seq!["DBUS_SESSION_BUS_ADDRESS="@ + dbus_session]
    } else {
        seq![]
    };
    let a: Seq<Seq<char>> = if args.len() > 0 { args.update(0, exe) } else { seq![exe] };
    let r = elevation_args(
        exe,
        args,
        display,
        xauthority,
        wayland_display,
        xdg_runtime_dir,
        dbus_session,
        home,
    );
    let front = seq!["env"@] + d + x + w + g + b;
    assert(r == front + a);
    assert((seq!["env"@] + d)[0] == "env"@);
    assert(front[0] == "env"@);
    if display.len() > 0 {
        assert(front[1] == "DISPLAY="@ + display);
    }
    let p: int = if display.len() > 0 { 2 } else { 1 };
    if x.len() > 0 {
        assert((seq!["env"@] + d + x)[p] == x[0]);
        assert(front[p] == x[0]);
    }
    let n: int = if args.len() > 0 { args.len() as int } else { 1 };
    assert(a.len() == n);
    assert forall|k: int| 0 <= k < n implies r[r.len() - n + k] == a[k] by {
        assert(r[front.len() + k] == a[k]);
    }
    assert(r[r.len() - n + 0] == a[0]);
}

/// Appends "NAME=value" when `value` is not empty.
fn push_variable(out: &mut Vec<String>, name: &str, value: &str)
    ensures
        final(out).deep_view() == old(out).deep_view() + (if value@.len() > 0 {
            seq![name@ + value@]
        } else {
            Seq::<Seq<char>>::empty()
        }),
{
    if !value.is_empty() {
        let mut s = String::from_str(name);
        s.append(value);
        let ghost before = out.deep_view();
        out.push(s);
        assert(out.deep_view() =~= before + seq![name@ + value@]);
    } else {
        assert(out.deep_view() =~= out.deep_view() + Seq::<Seq<char>>::empty());
    }
}

/// The arguments for `pkexec` that restart the program as root.
pub fn elevation_command_args(
    exe: &str,
    args: &Vec<String>,
    display: &str,
    xauthority: &str,
    wayland_display: &str,
    xdg_runtime_dir: &str,
    dbus_session: &str,
    home: Option<&str>,
) -> (r: Vec<String>)
    ensures
        r.deep_view() == elevation_args(
            exe@,
            args.deep_view(),
            display@,
            xauthority@,
            wayland_display@,
            xdg_runtime_dir@,
            dbus_session@,
            match home {
                Some(h) => Some(h@),
                None => None,
            },
        ),
{
    let mut out: Vec<String> = Vec::new();
    out.push(String::from_str("env"));
    assert(out.deep_view() =~= seq!["env"@]);
    push_variable(&mut out, "DISPLAY=", display);
    let ghost before_x = out.deep_view();
    if !xauthority.is_empty() {
        push_variable(&mut out, "XAUTHORITY=", xauthority);
    } else {
        match home {
            Some(h) => {
                let mut s = String::from_str("XAUTHORITY=");
                s.append(h);
                s.append("/.Xauthority");
                out.push(s);
                assert(out.deep_view() =~= before_x + seq!["XAUTHORITY="@ + h@ + "/.Xauthority"@]);
            },
            None => {},
        }
    }
    push_variable(&mut out, "WAYLAND_DISPLAY=", wayland_display);
    push_variable(&mut out, "XDG_RUNTIME_DIR=", xdg_runtime_dir);
    push_variable(&mut out, "DBUS_SESSION_BUS_ADDRESS=", dbus_session);
    let ghost before_args = out.deep_view();
    let mut i: usize = 0;
    while i < args.len()
        invariant
            i <= args.len(),
            before_args.len() <= out.deep_view().len(),
            out.deep_view() =~= before_args + args.deep_view().update(0, exe@).take(i as int),
        decreases args.len() - i,
    {
        let ghost prev = out.deep_view();
        let elem = if i == 0 {
            String::from_str(exe)
        } else {
            args[i].clone()
        };
        let ghost want = if i == 0 {
            exe@
        } else {
            args@[i as int]@
        };
        assert(elem@ == want);
        out.push(elem);
        assert(out.deep_view() =~= prev.push(want));
        assert(args.deep_view()[i as int] == args@[i as int]@);
        assert(args.deep_view().update(0, exe@).take((i + 1) as int) =~= args.deep_view().update(
            0,
            exe@,
        ).take(i as int).push(want));
        i = i + 1;
    }
    if args.len() == 0 {
        out.push(String::from_str(exe));
    }
    proof {
        if args.len() > 0 {
            assert(args.deep_view().update(0, exe@).take(args.len() as int) =~= args.deep_view().update(
                0,
                exe@,
            ));
        }
    }
    out
}

} // verus!
