//! How the root partition of a member is prepared.
use vstd::prelude::*;
use vstd::string::*;

use crate::config::ConfigModel;
use crate::laws::effects::{
    all_before, begins_with_its_head, command, creates_root, creates_some_root, formats_a_layer,
    group_some_steps, integrity_formats, luks_formats, maps_device, opens, script, some_step,
    stamps, words,
};
use crate::laws::opening::{mapping_of, opens_a_member};
use crate::laws::forgiving;
use crate::layout::LayoutModel;
use crate::stack::{
    blocks_per_sector, create_root_partitions_plan, crypt_format_device_plan, crypt_format_disk,
    crypt_format_disks_plan, crypt_open_disks_plan, crypt_preserve_uuid_plan, luks_format_words,
    AnyStack, Stack,
};
use crate::stack::md_integrity::{
    integrity_format_disk, integrity_format_disks_plan, integrity_open_disks_plan,
};
use crate::step::{each, StepModel};
use crate::text::{dec, has_prefix};

verus! {

/// The flags by which a crypt layer is to detect corruption, where it is configured to.
pub open spec fn integrity_flags(cfg: ConfigModel) -> Seq<Seq<char>> {
    if cfg.crypt.integrity != "aead"@ {
        Seq::empty()
    } else if cfg.crypt.integrity_no_wipe {
        seq!["--integrity=aead"@, "--integrity-no-wipe"@]
    } else {
        seq!["--integrity=aead"@]
    }
}

/// Whether a step luks-formats this device as it is configured: the cipher, its key and
/// its sectors, whether it detects corruption, and whatever is passed on.
pub open spec fn luks_formats_as(cfg: ConfigModel, s: StepModel, dev: Seq<char>) -> bool {
    let w = command(s);
    &&& luks_formats(s, dev)
    &&& w == seq![
        "cryptsetup"@,
        "-q"@,
        "luksFormat"@,
        "--cipher="@ + cfg.crypt.cipher,
        "--key-size="@ + dec(cfg.crypt.key_size as nat),
        "--sector-size="@ + dec(cfg.crypt.sector_size as nat),
    ] + integrity_flags(cfg) + cfg.crypt.extra_args + seq![dev]
}

/// Whether a step formats this device for the layer that stands on the members, as it is
/// configured.
pub open spec fn formats_a_member(
    stack: AnyStack,
    cfg: ConfigModel,
    s: StepModel,
    dev: Seq<char>,
) -> bool {
    if stack is MdIntegrity {
        integrity_formats(s, dev) && command(s) == seq![
            "integritysetup"@,
            "format"@,
            "--batch-mode"@,
            "--sector-size=4096"@,
            "--integrity="@ + cfg.integrity_algorithm,
            dev,
        ]
    } else {
        luks_formats_as(cfg, s, dev)
    }
}

/// Whether a step opens a member's device as this mapping, with the algorithm that its
/// integrity layer was formatted with.
pub open spec fn maps_member(
    stack: AnyStack,
    cfg: ConfigModel,
    s: StepModel,
    dev: Seq<char>,
    name: Seq<char>,
) -> bool {
    maps_device(s, dev, name) && (stack is MdIntegrity ==> command(s)[2] == "--integrity="@
        + cfg.integrity_algorithm)
}

proof fn luks_words_are(cfg: ConfigModel, dev: Seq<char>)
    ensures
        luks_format_words(cfg, dev) == seq![
            "cryptsetup"@,
            "-q"@,
            "luksFormat"@,
            "--cipher="@ + cfg.crypt.cipher,
            "--key-size="@ + dec(cfg.crypt.key_size as nat),
            "--sector-size="@ + dec(cfg.crypt.sector_size as nat),
        ] + integrity_flags(cfg) + cfg.crypt.extra_args + seq![dev],
{
    assert(luks_format_words(cfg, dev) =~= seq![
        "cryptsetup"@,
        "-q"@,
        "luksFormat"@,
        "--cipher="@ + cfg.crypt.cipher,
        "--key-size="@ + dec(cfg.crypt.key_size as nat),
        "--sector-size="@ + dec(cfg.crypt.sector_size as nat),
    ] + integrity_flags(cfg) + cfg.crypt.extra_args + seq![dev]);
}

/// A crypt layer is formatted as it is configured, on whatever device it stands.
pub proof fn luks_is_formatted_as_configured(cfg: ConfigModel, dev: Seq<char>, note: Seq<char>)
    ensures
        luks_formats_as(cfg, crypt_format_device_plan(cfg, dev, note), dev),
{
    luks_words_are(cfg, dev);
    words();
}

/// Whether the steps prepare the root partition of a disk: create it, aligned to the
/// sectors of the crypt layer, format its layer and open it, each or fail.
pub open spec fn prepares_root(
    stack: AnyStack,
    cfg: ConfigModel,
    layout: LayoutModel,
    d: Seq<char>,
    v: Seq<StepModel>,
) -> bool {
    let blocks = if cfg.crypt.sector_size < 1024 {
        1
    } else {
        (cfg.crypt.sector_size / 512) as nat
    };
    let dev = layout.part(d, 3);
    &&& some_step(v, |s: StepModel| creates_root(s, d, blocks) && !forgiving(s))
    &&& some_step(v, |s: StepModel| formats_a_member(stack, cfg, s, dev) && !forgiving(s))
    &&& some_step(
        v,
        |s: StepModel|
            maps_member(stack, cfg, s, dev, mapping_of(stack, layout, d)) && !forgiving(s),
    )
    &&& !(stack is MdIntegrity) ==> some_step(v, |s: StepModel| stamps(s, dev, layout.crypt_name(d)))
}

/// Whether root partitions are created before any layer is formatted, and layers
/// formatted before any is opened.
pub open spec fn prepares_in_order(stack: AnyStack, v: Seq<StepModel>) -> bool {
    &&& all_before(v, creates_some_root(), formats_a_layer())
    &&& all_before(v, formats_a_layer(), opens_a_member(stack))
}

proof fn blocks_of_a_sector(size: u32)
    ensures
        blocks_per_sector(size) == (if size < 1024 {
            1
        } else {
            (size / 512) as nat
        }),
{
}

proof fn stamping_stamps(dev: Seq<char>, name: Seq<char>)
    ensures
        stamps(crypt_preserve_uuid_plan(dev, name), dev, name),
{
    words();
    let s = crypt_preserve_uuid_plan(dev, name);
    let head = "uuid=$(awk -v n="@ + name;
    let mid =
        " '$1==n {print $2}' /etc/crypttab 2>/dev/null | sed 's/^UUID=//'); if [ -n \"$uuid\" ]; then cryptsetup -q luksUUID "@;
    let end = " --uuid \"$uuid\"; fi"@;
    let all = head + mid + dev + end;
    assert(script(s) == all);
    reveal_strlit(
        " '$1==n {print $2}' /etc/crypttab 2>/dev/null | sed 's/^UUID=//'); if [ -n \"$uuid\" ]; then cryptsetup -q luksUUID ",
    );
    reveal_strlit(" '$1==n {print $2}' /etc/crypttab ");
    reveal_strlit("cryptsetup -q luksUUID ");
    let a = " '$1==n {print $2}' /etc/crypttab "@;
    let b = "cryptsetup -q luksUUID "@;
    assert(mid.take(a.len() as int) =~= a);
    assert(mid.skip(mid.len() - b.len()) =~= b);
    assert(all.take((head + a).len() as int) =~= head + a);
    assert(all.skip(all.len() - (b + dev + end).len()) =~= b + dev + end);
}

proof fn a_member_is_created(cfg: ConfigModel, layout: LayoutModel, k: int)
    requires
        0 <= k < layout.members.len(),
    ensures
        some_step(
            create_root_partitions_plan(cfg, layout),
            |s: StepModel|
                creates_root(
                    s,
                    layout.members[k],
                    if cfg.crypt.sector_size < 1024 {
                        1
                    } else {
                        (cfg.crypt.sector_size / 512) as nat
                    },
                ) && !forgiving(s),
        ),
{
    broadcast use group_some_steps;

    blocks_of_a_sector(cfg.crypt.sector_size);
    let d = layout.members[k];
}

proof fn a_crypt_member_is_prepared(
    stack: AnyStack,
    cfg: ConfigModel,
    layout: LayoutModel,
    k: int,
)
    requires
        0 <= k < layout.members.len(),
        !(stack is MdIntegrity),
    ensures
        prepares_root(
            stack,
            cfg,
            layout,
            layout.members[k],
            stack.partition_root_plan(cfg, layout),
        ),
{
    broadcast use group_some_steps;

    words();
    let d = layout.members[k];
    a_member_is_created(cfg, layout, k);
    stamping_stamps(layout.part(d, 3), layout.crypt_name(d));
    luks_is_formatted_as_configured(cfg, layout.part(d, 3), "luks-format "@ + layout.part(d, 3));
    let f = crypt_format_disk(cfg, layout, d);
    assert(f[0] == f[0] && f[1] == crypt_preserve_uuid_plan(layout.part(d, 3), layout.crypt_name(d)));
}

proof fn an_integrity_member_is_prepared(
    stack: AnyStack,
    cfg: ConfigModel,
    layout: LayoutModel,
    k: int,
)
    requires
        0 <= k < layout.members.len(),
        stack is MdIntegrity,
    ensures
        prepares_root(
            stack,
            cfg,
            layout,
            layout.members[k],
            stack.partition_root_plan(cfg, layout),
        ),
{
    broadcast use group_some_steps;

    words();
    let d = layout.members[k];
    a_member_is_created(cfg, layout, k);
    assert(layout.root_devices()[k] == layout.part(d, 3));
    let dev = layout.part(d, 3);
    assert(command(integrity_format_disk(cfg, dev)[0]) =~= seq![
        "integritysetup"@,
        "format"@,
        "--batch-mode"@,
        "--sector-size=4096"@,
        "--integrity="@ + cfg.integrity_algorithm,
        dev,
    ]);
}

/// Every member of a layout is prepared.
pub proof fn every_member_is_prepared(
    stack: AnyStack,
    cfg: ConfigModel,
    layout: LayoutModel,
    k: int,
)
    requires
        0 <= k < layout.members.len(),
    ensures
        prepares_root(
            stack,
            cfg,
            layout,
            layout.members[k],
            stack.partition_root_plan(cfg, layout),
        ),
{
    if stack is MdIntegrity {
        an_integrity_member_is_prepared(stack, cfg, layout, k);
    } else {
        a_crypt_member_is_prepared(stack, cfg, layout, k);
    }
}

proof fn creating_only_creates(stack: AnyStack, cfg: ConfigModel, layout: LayoutModel)
    ensures
        !some_step(create_root_partitions_plan(cfg, layout), formats_a_layer()),
        !some_step(create_root_partitions_plan(cfg, layout), opens_a_member(stack)),
{
    broadcast use group_some_steps;

    words();
}

proof fn stamping_creates_nothing(dev: Seq<char>, name: Seq<char>)
    ensures
        !creates_some_root()(crypt_preserve_uuid_plan(dev, name)),
{
    broadcast use begins_with_its_head;

    words();
    stamping_stamps(dev, name);
    let t = script(crypt_preserve_uuid_plan(dev, name));
    reveal_strlit("uuid=$(awk -v n=");
    reveal_strlit("end=$(sgdisk -E ");
    let head = "uuid=$(awk -v n="@ + name + " '$1==n {print $2}' /etc/crypttab "@;
    assert(t.take(head.len() as int)[0] == head[0]);
    assert(head[0] == 'u');
    assert("end=$(sgdisk -E "@[0] == 'e');
    if has_prefix(t, "end=$(sgdisk -E "@) {
        assert(t.take("end=$(sgdisk -E "@.len() as int)[0] == 'e');
    }
}

proof fn crypt_formatting_only_formats(stack: AnyStack, cfg: ConfigModel, layout: LayoutModel)
    ensures
        !some_step(crypt_format_disks_plan(cfg, layout), creates_some_root()),
        !some_step(crypt_format_disks_plan(cfg, layout), opens_a_member(stack)),
        !some_step(crypt_open_disks_plan(layout), creates_some_root()),
        !some_step(crypt_open_disks_plan(layout), formats_a_layer()),
{
    broadcast use group_some_steps;

    words();
    reveal_strlit("end=$(sgdisk -E ");
    assert forall|d: Seq<char>|
        !creates_some_root()(
            #[trigger] crypt_preserve_uuid_plan(layout.part(d, 3), layout.crypt_name(d)),
        ) by {
        stamping_creates_nothing(layout.part(d, 3), layout.crypt_name(d));
    }
}

proof fn integrity_formatting_only_formats(cfg: ConfigModel, layout: LayoutModel)
    ensures
        !some_step(integrity_format_disks_plan(cfg, layout), creates_some_root()),
        !some_step(
            integrity_format_disks_plan(cfg, layout),
            crate::laws::effects::opens_integrity(),
        ),
        !some_step(integrity_open_disks_plan(cfg, layout), creates_some_root()),
        !some_step(integrity_open_disks_plan(cfg, layout), formats_a_layer()),
{
    broadcast use group_some_steps;

    words();
    reveal_strlit("end=$(sgdisk -E ");
}

/// The members are prepared layer by layer.
pub proof fn members_are_prepared_in_order(
    stack: AnyStack,
    cfg: ConfigModel,
    layout: LayoutModel,
)
    ensures
        prepares_in_order(stack, stack.partition_root_plan(cfg, layout)),
{
    broadcast use group_some_steps;

    creating_only_creates(stack, cfg, layout);
    if stack is MdIntegrity {
        integrity_formatting_only_formats(cfg, layout);
    } else {
        crypt_formatting_only_formats(stack, cfg, layout);
    }
}

} // verus!
