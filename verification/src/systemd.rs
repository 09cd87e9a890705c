//! Text generation for persistence: the service unit that reapplies the
//! configuration at boot, and the standalone shell script that performs the
//! same binds without this tool. Installing, enabling or writing these
//! files is the unverified shell's work.

use vstd::prelude::*;
use crate::config::Config;
use crate::error::VfioError;

verus! {

/// The service unit text: a oneshot that runs the apply operation after
/// the network targets, with journal output.
pub fn generate_service_file() -> (r: String)
    ensures
        r@
            == "[Unit]\nDescription=VFIO Device Binding for Kernel Bypass\nDocumentation=https://github.com/your-repo/vfio-tool\nAfter=network.target multi-user.target\n\n[Service]\nType=oneshot\nExecStart=/usr/local/bin/vfio-tool apply\nRemainAfterExit=yes\nStandardOutput=journal\nStandardError=journal\nTimeoutStartSec=300\nRestart=no\n\n[Install]\nWantedBy=multi-user.target\n"@,
{
    let mut s = String::new();
    s.append(
        "[Unit]\nDescription=VFIO Device Binding for Kernel Bypass\nDocumentation=https://github.com/your-repo/vfio-tool\nAfter=network.target multi-user.target\n\n[Service]\nType=oneshot\nExecStart=/usr/local/bin/vfio-tool apply\nRemainAfterExit=yes\nStandardOutput=journal\nStandardError=journal\nTimeoutStartSec=300\nRestart=no\n\n[Install]\nWantedBy=multi-user.target\n",
    );
    proof {
        assert(s@
            =~= "[Unit]\nDescription=VFIO Device Binding for Kernel Bypass\nDocumentation=https://github.com/your-repo/vfio-tool\nAfter=network.target multi-user.target\n\n[Service]\nType=oneshot\nExecStart=/usr/local/bin/vfio-tool apply\nRemainAfterExit=yes\nStandardOutput=journal\nStandardError=journal\nTimeoutStartSec=300\nRestart=no\n\n[Install]\nWantedBy=multi-user.target\n"@);
    }
    s
}

/// The script block that binds one interface: look its device up, release
/// its driver, register the id pair, attach the bypass driver.
pub open spec fn spec_iface_block(n: Seq<char>) -> Seq<char> {
    "echo \"Binding "@ + n + "...\"\n# Get PCI address and device IDs for "@ + n
        + "\nif [ -e /sys/class/net/"@ + n
        + "/device ]; then\n    PCI_ADDR=$(basename $(readlink /sys/class/net/"@ + n
        + "/device))\n    VENDOR=$(cat /sys/bus/pci/devices/$PCI_ADDR/vendor | sed 's/0x//')\n    DEVICE=$(cat /sys/bus/pci/devices/$PCI_ADDR/device | sed 's/0x//')\n\n    # Unbind from current driver\n    if [ -e /sys/bus/pci/devices/$PCI_ADDR/driver ]; then\n        echo \"$PCI_ADDR\" > /sys/bus/pci/devices/$PCI_ADDR/driver/unbind 2>/dev/null || true\n    fi\n\n    # Register with VFIO\n    echo \"$VENDOR $DEVICE\" > /sys/bus/pci/drivers/vfio-pci/new_id 2>/dev/null || true\n\n    # Bind to VFIO\n    echo \"$PCI_ADDR\" > /sys/bus/pci/drivers/vfio-pci/bind 2>/dev/null || true\n\n    echo \"  ✓ "@
        + n + " bound to vfio-pci\"\nelse\n    echo \"  ✗ "@ + n + " not found\"\nfi\necho\n\n"@
}

/// The bind blocks for a list of interfaces, in order.
pub open spec fn spec_iface_blocks(names: Seq<Seq<char>>) -> Seq<char>
    decreases names.len(),
{
    if names.len() == 0 {
        Seq::empty()
    } else {
        spec_iface_block(names[0]) + spec_iface_blocks(names.drop_first())
    }
}

/// The whole script: header, then the module load when configured, the
/// bind blocks when any interface is listed, the permission settings when
/// configured, and the closing message.
pub open spec fn spec_bash_script(
    auto_load_module: bool,
    names: Seq<Seq<char>>,
    set_permissions: bool,
) -> Seq<char> {
    "#!/bin/bash\n#\n# VFIO Device Binding Script\n# Generated by vfio-tool\n#\n# This script binds network interfaces to VFIO for kernel bypass.\n#\n\nset -e\n\necho \"===== VFIO Device Binding =====\"\necho\n\n"@
        + (if auto_load_module {
        "# Load VFIO module\necho \"Loading VFIO module...\"\nmodprobe -q vfio-pci || true\necho \"✓ VFIO module loaded\"\necho\n\n"@
    } else {
        Seq::empty()
    }) + (if names.len() > 0 {
        "# Bind interfaces to VFIO\n"@ + spec_iface_blocks(names)
    } else {
        Seq::empty()
    }) + (if set_permissions {
        "# Set VFIO device permissions\necho \"Setting VFIO device permissions...\"\nchmod 666 /dev/vfio/vfio 2>/dev/null || true\nfor dev in /dev/vfio/*; do\n    if [ \"$dev\" != \"/dev/vfio/vfio\" ]; then\n        chmod 666 \"$dev\" 2>/dev/null || true\n    fi\ndone\necho \"✓ Permissions set\"\necho\n\n"@
    } else {
        Seq::empty()
    }) + "echo \"✓ VFIO binding complete\"\necho\n"@
}

/// Generate the standalone shell script for a configuration.
pub fn generate_bash_script(config: &Config) -> (r: Result<String, VfioError>)
    ensures
        r matches Ok(s) && s@ == spec_bash_script(
            config.options.auto_load_module,
            config.devices.vfio.deep_view(),
            config.options.set_permissions,
        ),
{
    let mut s = String::new();
    s.append(
        "#!/bin/bash\n#\n# VFIO Device Binding Script\n# Generated by vfio-tool\n#\n# This script binds network interfaces to VFIO for kernel bypass.\n#\n\nset -e\n\necho \"===== VFIO Device Binding =====\"\necho\n\n",
    );
    if config.options.auto_load_module {
        s.append(
            "# Load VFIO module\necho \"Loading VFIO module...\"\nmodprobe -q vfio-pci || true\necho \"✓ VFIO module loaded\"\necho\n\n",
        );
    }
    let ghost mid1 = s@;
    proof {
        assert(mid1
            =~= "#!/bin/bash\n#\n# VFIO Device Binding Script\n# Generated by vfio-tool\n#\n# This script binds network interfaces to VFIO for kernel bypass.\n#\n\nset -e\n\necho \"===== VFIO Device Binding =====\"\necho\n\n"@
            + (if config.options.auto_load_module {
            "# Load VFIO module\necho \"Loading VFIO module...\"\nmodprobe -q vfio-pci || true\necho \"✓ VFIO module loaded\"\necho\n\n"@
        } else {
            Seq::<char>::empty()
        }));
    }
    let names = &config.devices.vfio;
    let n: usize = names.len();
    if n > 0 {
        s.append("# Bind interfaces to VFIO\n");
        let ghost base = s@;
        let mut i: usize = 0;
        proof {
            assert(names.deep_view().skip(0) =~= names.deep_view());
            assert(base + spec_iface_blocks(names.deep_view().skip(0)) =~= base
                + spec_iface_blocks(names.deep_view()));
        }
        while i < n
            invariant
                i <= n,
                n == names@.len(),
                base + spec_iface_blocks(names.deep_view()) == s@ + spec_iface_blocks(
                    names.deep_view().skip(i as int),
                ),
            decreases n - i,
        {
            let ghost rest = names.deep_view().skip(i as int);
            let ghost before = s@;
            proof {
                assert(rest[0] == names.deep_view()[i as int]);
                assert(rest.drop_first() =~= names.deep_view().skip(i + 1));
                assert(names.deep_view()[i as int] == names@[i as int]@);
            }
            let iface = names[i].as_str();
            s.append("echo \"Binding ");
            s.append(iface);
            s.append("...\"\n# Get PCI address and device IDs for ");
            s.append(iface);
            s.append("\nif [ -e /sys/class/net/");
            s.append(iface);
            s.append("/device ]; then\n    PCI_ADDR=$(basename $(readlink /sys/class/net/");
            s.append(iface);
            s.append(
                "/device))\n    VENDOR=$(cat /sys/bus/pci/devices/$PCI_ADDR/vendor | sed 's/0x//')\n    DEVICE=$(cat /sys/bus/pci/devices/$PCI_ADDR/device | sed 's/0x//')\n\n    # Unbind from current driver\n    if [ -e /sys/bus/pci/devices/$PCI_ADDR/driver ]; then\n        echo \"$PCI_ADDR\" > /sys/bus/pci/devices/$PCI_ADDR/driver/unbind 2>/dev/null || true\n    fi\n\n    # Register with VFIO\n    echo \"$VENDOR $DEVICE\" > /sys/bus/pci/drivers/vfio-pci/new_id 2>/dev/null || true\n\n    # Bind to VFIO\n    echo \"$PCI_ADDR\" > /sys/bus/pci/drivers/vfio-pci/bind 2>/dev/null || true\n\n    echo \"  ✓ ",
            );
            s.append(iface);
            s.append(" bound to vfio-pci\"\nelse\n    echo \"  ✗ ");
            s.append(iface);
            s.append(" not found\"\nfi\necho\n\n");
            proof {
                assert(s@ =~= before + spec_iface_block(names@[i as int]@));
                assert(spec_iface_blocks(rest) == spec_iface_block(names@[i as int]@)
                    + spec_iface_blocks(names.deep_view().skip(i + 1)));
                assert(before + (spec_iface_block(names@[i as int]@) + spec_iface_blocks(
                    names.deep_view().skip(i + 1),
                )) =~= s@ + spec_iface_blocks(names.deep_view().skip(i + 1)));
            }
            i = i + 1;
        }
        proof {
            assert(spec_iface_blocks(names.deep_view().skip(n as int)).len() == 0);
            assert(s@ + spec_iface_blocks(names.deep_view().skip(n as int)) =~= s@);
            assert(s@ =~= mid1 + ("# Bind interfaces to VFIO\n"@ + spec_iface_blocks(
                names.deep_view(),
            )));
        }
    } else {
        proof {
            assert(s@ =~= mid1 + Seq::<char>::empty());
        }
    }
    let ghost mid2 = s@;
    if config.options.set_permissions {
        s.append(
            "# Set VFIO device permissions\necho \"Setting VFIO device permissions...\"\nchmod 666 /dev/vfio/vfio 2>/dev/null || true\nfor dev in /dev/vfio/*; do\n    if [ \"$dev\" != \"/dev/vfio/vfio\" ]; then\n        chmod 666 \"$dev\" 2>/dev/null || true\n    fi\ndone\necho \"✓ Permissions set\"\necho\n\n",
        );
    }
    s.append("echo \"✓ VFIO binding complete\"\necho\n");
    proof {
        assert(s@ =~= spec_bash_script(
            config.options.auto_load_module,
            config.devices.vfio.deep_view(),
            config.options.set_permissions,
        ));
    }
    Ok(s)
}

} // verus!
