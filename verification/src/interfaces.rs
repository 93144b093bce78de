//! Wayland interface names.
use crate::config::texts;
use crate::text::{
    characters, comes_before, contains_text, is_white_space, lines, order_is_irreflexive, order_is_total,
    order_is_transitive, precedes, split_lines, white_space,
};
use vstd::prelude::*;
use vstd::string::*;

verus! {

/// Whether the interface `name` is on the list `block`.
pub fn is_blocked_interface(name: &str, block: &[String]) -> (r: bool)
    ensures
        r == texts(block@).contains(name@),
{
    contains_text(block, name)
}

/// The interfaces that are known, one to a line. Blank lines, and lines that begin with a
/// number sign, are comments.
pub const KNOWN_PROTOCOLS: &'static str = "# Core protocol
wl_compositor
wl_subcompositor
wl_shm
wl_shm_pool
wl_buffer
wl_callback
wl_data_device
wl_data_device_manager
wl_data_offer
wl_data_source
wl_display
wl_drm
wl_fixes
wl_keyboard
wl_output
wl_pointer
wl_region
wl_registry
wl_seat
wl_shell
wl_shell_surface
wl_subsurface
wl_surface
wl_touch

# Stable protocols
wp_presentation
wp_viewporter
xdg_popup
xdg_positioner
xdg_surface
xdg_toplevel
xdg_wm_base
zwp_linux_dmabuf_v1
zwp_tablet_manager_v2

# Staging protocols
ext_background_effect_manager_v1
ext_data_control_device_v1
ext_data_control_manager_v1
ext_foreign_toplevel_image_capture_source_manager_v1
ext_foreign_toplevel_list_v1
ext_idle_notifier_v1
ext_image_copy_capture_manager_v1
ext_output_image_capture_source_manager_v1
ext_session_lock_manager_v1
ext_transient_seat_manager_v1
ext_workspace_manager_v1
wp_alpha_modifier_v1
wp_color_manager_v1
wp_color_representation_manager_v1
wp_commit_timing_manager_v1
wp_content_type_manager_v1
wp_cursor_shape_manager_v1
wp_drm_lease_device_v1
wp_fifo_manager_v1
wp_fractional_scale_manager_v1
wp_linux_drm_syncobj_manager_v1
wp_pointer_warp_v1
wp_security_context_manager_v1
wp_single_pixel_buffer_manager_v1
wp_tearing_control_manager_v1
xdg_activation_v1
xdg_system_bell_v1
xdg_toplevel_drag_manager_v1
xdg_toplevel_icon_manager_v1
xdg_toplevel_tag_manager_v1
xdg_wm_dialog_v1
xwayland_shell_v1

# Unstable protocols
zwp_fullscreen_shell_v1
zwp_idle_inhibit_manager_v1
zwp_input_method_manager_v2
zwp_input_method_v1
zwp_input_panel_v1
zwp_input_timestamps_manager_v1
zwp_keyboard_shortcuts_inhibit_manager_v1
zwp_linux_explicit_synchronization_v1
zwp_pointer_constraints_v1
zwp_pointer_gestures_v1
zwp_primary_selection_device_manager_v1
zwp_relative_pointer_manager_v1
zwp_tablet_manager_v1
zwp_text_input_manager_v1
zwp_text_input_manager_v2
zwp_text_input_manager_v3
zwp_virtual_keyboard_manager_v1
zwp_xwayland_keyboard_grab_manager_v1
zxdg_decoration_manager_v1
zxdg_exporter_v1
zxdg_exporter_v2
zxdg_importer_v1
zxdg_importer_v2
zxdg_output_manager_v1
zxdg_shell_v6

# wlroots protocols
zwlr_data_control_device_v1
zwlr_data_control_manager_v1
zwlr_export_dmabuf_manager_v1
zwlr_foreign_toplevel_manager_v1
zwlr_gamma_control_manager_v1
zwlr_input_inhibit_manager_v1
zwlr_layer_shell_v1
zwlr_output_manager_v1
zwlr_output_power_manager_v1
zwlr_screencopy_manager_v1
zwlr_virtual_pointer_manager_v1

# KDE protocols
kde_output_device_v2
kde_output_management_v2
org_kde_kwin_appmenu_manager
org_kde_kwin_blur_manager
org_kde_kwin_contrast_manager
org_kde_kwin_dpms_manager
org_kde_kwin_fake_input
org_kde_kwin_idle
org_kde_kwin_server_decoration_manager
org_kde_kwin_server_decoration_palette_manager
org_kde_kwin_shadow_manager
org_kde_kwin_slide_manager
org_kde_plasma_shell
org_kde_plasma_virtual_desktop_management
org_kde_plasma_window_management
zkde_screencast_unstable_v1

# Hyprland protocols
hyprland_focus_grab_manager_v1
hyprland_global_shortcuts_manager_v1
hyprland_lock_notifier_v1
hyprland_surface_manager_v1
hyprland_toplevel_export_manager_v1
hyprland_toplevel_mapping_manager_v1
";

/// Whether a line of a list names an interface: its first visible character is no number
/// sign.
pub open spec fn names_interface(line: Seq<char>) -> bool {
    exists|i: int|
        0 <= i < line.len() && !white_space(#[trigger] line[i]) && line[i] != '#' && (forall|j: int|
            0 <= j < i ==> white_space(#[trigger] line[j]))
}

/// Whether each text comes before all that follow it.
pub open spec fn ascending(list: Seq<Seq<char>>) -> bool {
    forall|i: int, j: int| 0 <= i < j < list.len() ==> precedes(#[trigger] list[i], #[trigger] list[j])
}

/// Whether `list` holds the interfaces that the lines of `text` name, each once, in order.
pub open spec fn lists_interfaces(list: Seq<Seq<char>>, text: Seq<char>) -> bool {
    &&& ascending(list)
    &&& forall|name: Seq<char>|
        #[trigger] list.contains(name) <==> lines(text).contains(name) && names_interface(name)
}

fn line_names_interface(line: &str) -> (r: bool)
    ensures
        r == names_interface(line@),
{
    let chars = characters(line);
    let mut i: usize = 0;
    while i < chars.len()
        invariant
            chars@ == line@,
            i <= chars@.len(),
            forall|j: int| 0 <= j < i ==> white_space(#[trigger] line@[j]),
        decreases chars@.len() - i,
    {
        if !is_white_space(chars[i]) {
            assert(!white_space(line@[i as int]));
            return chars[i] != '#';
        }
        i = i + 1;
    }
    false
}

/// Puts `name` where it belongs, unless it is there.
fn insert_ascending(list: &mut Vec<String>, name: &String)
    requires
        ascending(texts(old(list)@)),
    ensures
        ascending(texts(final(list)@)),
        forall|n: Seq<char>|
            #[trigger] texts(final(list)@).contains(n) <==> texts(old(list)@).contains(n) || n
                == name@,
{
    let ghost before = texts(list@);
    let mut i: usize = 0;
    while i < list.len() && comes_before(list[i].as_str(), name.as_str())
        invariant
            list@ == old(list)@,
            before == texts(list@),
            i <= list@.len(),
            forall|j: int| 0 <= j < i ==> precedes(#[trigger] before[j], name@),
        decreases list@.len() - i,
    {
        assert(before[i as int] == list@[i as int]@);
        i = i + 1;
    }
    if i < list.len() && list[i] == *name {
        assert(before[i as int] == name@);
        return;
    }
    list.insert(i, name.clone());
    let ghost now = texts(list@);
    assert(now =~= before.insert(i as int, name@));
    assert forall|j: int| i <= j < before.len() implies precedes(name@, #[trigger] before[j]) by {
        assert(before[i as int] == old(list)@[i as int]@);
        order_is_total(name@, before[i as int]);
        if j > i {
            order_is_transitive(name@, before[i as int], before[j]);
        }
    }
    assert forall|a: int, b: int| 0 <= a < b < now.len() implies precedes(
        #[trigger] now[a],
        #[trigger] now[b],
    ) by {
        let x = if a > i { a - 1 } else { a };
        let y = if b > i { b - 1 } else { b };
        if a != i {
            assert(now[a] == before[x]);
        }
        if b != i {
            assert(now[b] == before[y]);
        }
    }
    assert forall|n: Seq<char>| #[trigger] now.contains(n) <==> before.contains(n) || n == name@ by {
        if now.contains(n) {
            let k = choose|k: int| 0 <= k < now.len() && now[k] == n;
            if k < i {
                assert(before[k] == n);
            } else if k > i {
                assert(before[k - 1] == n);
            }
        }
        if before.contains(n) {
            let k = choose|k: int| 0 <= k < before.len() && before[k] == n;
            if k < i {
                assert(now[k] == n);
            } else {
                assert(now[k + 1] == n);
            }
        }
        assert(now[i as int] == name@);
    }
}

/// The interfaces that the lines of `text` name, each once, in order.
pub fn parse_protocols(text: &str) -> (r: Vec<String>)
    ensures
        lists_interfaces(texts(r@), text@),
{
    let all = split_lines(text);
    let ghost every = lines(text@);
    let mut list: Vec<String> = Vec::new();
    let mut i: usize = 0;
    while i < all.len()
        invariant
            i <= all@.len(),
            every == texts(all@),
            ascending(texts(list@)),
            forall|n: Seq<char>| #[trigger]
                texts(list@).contains(n) <==> every.take(i as int).contains(n) && names_interface(n),
        decreases all@.len() - i,
    {
        let ghost before = texts(list@);
        if line_names_interface(all[i].as_str()) {
            insert_ascending(&mut list, &all[i]);
        }
        assert forall|n: Seq<char>| #[trigger]
            texts(list@).contains(n) <==> every.take(i + 1).contains(n) && names_interface(n) by {
            assert(every.take(i + 1) =~= every.take(i as int).push(all@[i as int]@));
            let longer = every.take(i as int).push(all@[i as int]@);
            if every.take(i as int).contains(n) {
                let k = choose|k: int| 0 <= k < i && every.take(i as int)[k] == n;
                assert(longer[k] == n);
            }
            if longer.contains(n) && n != all@[i as int]@ {
                let k = choose|k: int| 0 <= k < longer.len() && longer[k] == n;
                assert(every.take(i as int)[k] == n);
            }
            assert(longer[i as int] == all@[i as int]@);
            assert(before.contains(n) <==> every.take(i as int).contains(n) && names_interface(n));
        }
        i = i + 1;
    }
    assert(every.take(i as int) =~= every);
    list
}

/// The interfaces that are known.
pub fn known_protocols() -> (r: Vec<String>)
    ensures
        lists_interfaces(texts(r@), KNOWN_PROTOCOLS@),
{
    parse_protocols(KNOWN_PROTOCOLS)
}

/// Where each text comes before all that follow it, none occurs twice.
pub proof fn ascending_has_no_duplicates(list: Seq<Seq<char>>)
    requires
        ascending(list),
    ensures
        list.no_duplicates(),
{
    assert forall|i: int, j: int| 0 <= i < list.len() && 0 <= j < list.len() && i != j implies list[i]
        != list[j] by {
        order_is_irreflexive(list[i]);
        if i < j {
            assert(precedes(list[i], list[j]));
        } else {
            assert(precedes(list[j], list[i]));
        }
    }
}

/// The order and the texts determine a list.
pub proof fn ascending_is_determined(a: Seq<Seq<char>>, b: Seq<Seq<char>>)
    requires
        ascending(a),
        ascending(b),
        forall|name: Seq<char>| a.contains(name) <==> b.contains(name),
    ensures
        a == b,
    decreases a.len(),
{
    if a.len() == 0 {
        if b.len() > 0 {
            assert(b.contains(b[0]));
            assert(a.contains(b[0]));
        }
        assert(a =~= b);
    } else {
        assert(a.contains(a[0]));
        assert(b.contains(a[0]));
        assert(b.contains(b[0]));
        assert(a.contains(b[0]));
        let x = choose|k: int| 0 <= k < b.len() && b[k] == a[0];
        let y = choose|k: int| 0 <= k < a.len() && a[k] == b[0];
        if x > 0 && y > 0 {
            assert(precedes(b[0], b[x]));
            assert(precedes(a[0], a[y]));
            order_is_transitive(a[0], b[0], a[0]);
            order_is_irreflexive(a[0]);
        }
        assert(a[0] == b[0]);
        let s = a.drop_first();
        let t = b.drop_first();
        assert forall|name: Seq<char>| s.contains(name) <==> t.contains(name) by {
            ascending_has_no_duplicates(a);
            ascending_has_no_duplicates(b);
            if s.contains(name) {
                let k = choose|k: int| 0 <= k < s.len() && s[k] == name;
                assert(a[k + 1] == name);
                assert(a.contains(name));
                let m = choose|m: int| 0 <= m < b.len() && b[m] == name;
                assert(m != 0);
                assert(t[m - 1] == name);
            }
            if t.contains(name) {
                let k = choose|k: int| 0 <= k < t.len() && t[k] == name;
                assert(b[k + 1] == name);
                assert(b.contains(name));
                let m = choose|m: int| 0 <= m < a.len() && a[m] == name;
                assert(m != 0);
                assert(s[m - 1] == name);
            }
        }
        ascending_is_determined(s, t);
        assert(a =~= seq![a[0]] + s);
        assert(b =~= seq![b[0]] + t);
    }
}

/// Only one list holds the interfaces that a text names.
pub proof fn interface_list_is_determined(
    a: Seq<Seq<char>>,
    b: Seq<Seq<char>>,
    text: Seq<char>,
)
    requires
        lists_interfaces(a, text),
        lists_interfaces(b, text),
    ensures
        a == b,
        a.no_duplicates(),
{
    ascending_is_determined(a, b);
    ascending_has_no_duplicates(a);
}

// ---------------------------------------------------------------------------
// Warnings
// ---------------------------------------------------------------------------

/// Whether the interface is among those that are known.
pub open spec fn is_known(name: Seq<char>) -> bool {
    lines(KNOWN_PROTOCOLS@).contains(name) && names_interface(name)
}

/// The warning about an interface that is not known.
pub open spec fn warning(name: Seq<char>) -> Seq<char> {
    "Warning: unknown Wayland interface \""@ + name + "\" in --block list"@
}

/// The warnings about those of the interfaces that are not known, in order.
pub open spec fn warnings(block: Seq<Seq<char>>) -> Seq<Seq<char>>
    decreases block.len(),
{
    if block.len() == 0 {
        Seq::empty()
    } else if is_known(block.last()) {
        warnings(block.drop_last())
    } else {
        warnings(block.drop_last()).push(warning(block.last()))
    }
}

/// The warnings to print about the interfaces to block; none where they are not wanted.
pub fn validate_interfaces(block: &[String], quiet: bool) -> (r: Vec<String>)
    ensures
        texts(r@) == if quiet {
            Seq::empty()
        } else {
            warnings(texts(block@))
        },
{
    let mut out: Vec<String> = Vec::new();
    let ghost names = texts(block@);
    assert(texts(out@) =~= Seq::empty());
    if quiet {
        return out;
    }
    let known = known_protocols();
    let mut i: usize = 0;
    assert(warnings(names.take(0)) =~= Seq::empty());
    while i < block.len()
        invariant
            i <= block@.len(),
            names == texts(block@),
            lists_interfaces(texts(known@), KNOWN_PROTOCOLS@),
            texts(out@) == warnings(names.take(i as int)),
        decreases block@.len() - i,
    {
        let ghost before = texts(out@);
        assert(names.take(i + 1).drop_last() =~= names.take(i as int));
        assert(names.take(i + 1).last() == block@[i as int]@);
        assert(texts(known@).contains(block@[i as int]@) <==> is_known(block@[i as int]@));
        if !contains_text(known.as_slice(), block[i].as_str()) {
            let mut text = "Warning: unknown Wayland interface \"".to_owned();
            text.append(block[i].as_str());
            text.append("\" in --block list");
            out.push(text);
            assert(texts(out@) =~= before.push(warning(block@[i as int]@)));
        }
        i = i + 1;
    }
    assert(names.take(i as int) =~= names);
    out
}

} // verus!
