//! The features of the processor, as its identification leaves report
//! them, and what the kernel switches on for them.

use vstd::prelude::*;

verus! {

/// The first extended identification leaf: the feature flags of the
/// extended leaf are there only where the processor reports at least this
/// leaf as its highest.
pub const EXTENDED_FEATURE_LEAF: u32 = 0x8000_0001;

/// What the identification leaves of the processor hold, as far as the
/// features are read from them.
#[derive(Debug, Clone, Copy, PartialEq, Eq, Structural)]
pub struct CpuidLeaves {
    /// The highest extended leaf: register EAX of leaf 0x8000_0000.
    pub max_extended: u32,
    /// Register ECX of leaf 0x8000_0001.
    pub extended_ecx: u32,
    /// Register EDX of leaf 0x8000_0001.
    pub extended_edx: u32,
    /// Register ECX of leaf 1.
    pub basic_ecx: u32,
    /// Register EDX of leaf 1.
    pub basic_edx: u32,
    /// Register EBX of leaf 7, subleaf 0.
    pub leaf7_ebx: u32,
    /// Register ECX of leaf 7, subleaf 0.
    pub leaf7_ecx: u32,
}

/// The features of the processor: one flag for each.
#[derive(Debug, Clone, Copy, PartialEq, Eq, Structural)]
pub struct CpuFeatures {
    pub fpu: bool,
    pub vme: bool,
    pub de: bool,
    pub pse: bool,
    pub tsc: bool,
    pub msr: bool,
    pub pae: bool,
    pub mce: bool,
    pub cx8: bool,
    pub apic: bool,
    pub sep: bool,
    pub mtrr: bool,
    pub pge: bool,
    pub mca: bool,
    pub cmov: bool,
    pub pat: bool,
    pub pse36: bool,
    pub psn: bool,
    pub clfsh: bool,
    pub ds: bool,
    pub acpi: bool,
    pub mmx: bool,
    pub fxsr: bool,
    pub sse: bool,
    pub sse2: bool,
    pub ss: bool,
    pub htt: bool,
    pub tm: bool,
    pub ia64: bool,
    pub pbe: bool,
    pub sse3: bool,
    pub pclmulqdq: bool,
    pub dtes64: bool,
    pub monitor: bool,
    pub ds_cpl: bool,
    pub vmx: bool,
    pub smx: bool,
    pub est: bool,
    pub tm2: bool,
    pub ssse3: bool,
    pub cnxt_id: bool,
    pub sdbg: bool,
    pub fma: bool,
    pub cx16: bool,
    pub xtpr: bool,
    pub pdcm: bool,
    pub pcid: bool,
    pub dca: bool,
    pub sse4_1: bool,
    pub sse4_2: bool,
    pub x2apic: bool,
    pub movbe: bool,
    pub popcnt: bool,
    pub tsc_deadline: bool,
    pub aes: bool,
    pub xsave: bool,
    pub osxsave: bool,
    pub avx: bool,
    pub f16c: bool,
    pub rdrand: bool,
    pub hypervisor: bool,
    pub syscall: bool,
    pub mp: bool,
    pub nx: bool,
    pub mmxext: bool,
    pub fxsr_opt: bool,
    pub pdpe1gb: bool,
    pub rdtscp: bool,
    pub lm: bool,
    pub threednowext: bool,
    pub threednow: bool,
    pub lahf_lm: bool,
    pub cmp_legacy: bool,
    pub svm: bool,
    pub extapic: bool,
    pub cr8_legacy: bool,
    pub abm: bool,
    pub sse4a: bool,
    pub misalignsse: bool,
    pub threednowprefetch: bool,
    pub osvw: bool,
    pub ibs: bool,
    pub xop: bool,
    pub skinit: bool,
    pub wdt: bool,
    pub lwp: bool,
    pub fma4: bool,
    pub tce: bool,
    pub nodeid_msr: bool,
    pub tbm: bool,
    pub topoext: bool,
    pub perfctr_core: bool,
    pub perfctr_nb: bool,
    pub bpext: bool,
    pub ptsc: bool,
    pub perfctr_llc: bool,
    pub mwaitx: bool,
    pub fsgsbase: bool,
    pub tsc_adjust: bool,
    pub sgx: bool,
    pub bmi1: bool,
    pub hle: bool,
    pub avx2: bool,
    pub fdp_excptn_only: bool,
    pub smep: bool,
    pub bmi2: bool,
    pub rep_movsb_stosb: bool,
    pub invpcid: bool,
    pub rtm: bool,
    pub rdt_m: bool,
    pub dep_fpu_cs_ds: bool,
    pub mpx: bool,
    pub rdt_a: bool,
    pub avx512f: bool,
    pub avx512dq: bool,
    pub rdseed: bool,
    pub adx: bool,
    pub smap: bool,
    pub avx512ifma: bool,
    pub pcommit: bool,
    pub clflushopt: bool,
    pub clwb: bool,
    pub intel_pt: bool,
    pub avx512pf: bool,
    pub avx512er: bool,
    pub avx512cd: bool,
    pub sha: bool,
    pub avx512bw: bool,
    pub avx512vl: bool,
    pub prefetchwt1: bool,
    pub avx512vbmi: bool,
    pub umip: bool,
    pub pku: bool,
    pub ospke: bool,
    pub waitpkg: bool,
    pub avx512vbmi2: bool,
    pub cet_ss: bool,
    pub gfni: bool,
    pub vaes: bool,
    pub vpclmulqdq: bool,
    pub avx512vnni: bool,
    pub avx512bitalg: bool,
    pub tme: bool,
    pub avx512vpopcntdq: bool,
    pub la57: bool,
    pub rdpid: bool,
    pub keylocker: bool,
    pub bus_lock_detect: bool,
    pub cldemote: bool,
    pub movdiri: bool,
    pub movdir64b: bool,
    pub enqcmd: bool,
    pub sgx_lc: bool,
    pub pks: bool,
}

/// Whether bit `n` of `register` is set.
pub open spec fn bit(register: u32, n: u32) -> bool {
    register & (1u32 << n) != 0
}

/// Whether bit `n` of `register` is set.
pub fn bit_set(register: u32, n: u32) -> (set: bool)
    requires
        n < 32,
    ensures
        set == bit(register, n),
{
    register & (1u32 << n) != 0
}

/// Whether the processor reports the extended feature leaf.
pub open spec fn has_extended_leaf(leaves: CpuidLeaves) -> bool {
    leaves.max_extended >= EXTENDED_FEATURE_LEAF
}

/// The features that the leaves `leaves` report. Each feature is one bit
/// of one register; the features of the extended leaf are absent where the
/// processor does not report that leaf.
pub open spec fn features_of(leaves: CpuidLeaves) -> CpuFeatures {
    CpuFeatures {
        fpu: bit(leaves.basic_edx, 0),
        vme: bit(leaves.basic_edx, 1),
        de: bit(leaves.basic_edx, 2),
        pse: bit(leaves.basic_edx, 3),
        tsc: bit(leaves.basic_edx, 4),
        msr: bit(leaves.basic_edx, 5),
        pae: bit(leaves.basic_edx, 6),
        mce: bit(leaves.basic_edx, 7),
        cx8: bit(leaves.basic_edx, 8),
        apic: bit(leaves.basic_edx, 9),
        sep: bit(leaves.basic_edx, 11),
        mtrr: bit(leaves.basic_edx, 12),
        pge: bit(leaves.basic_edx, 13),
        mca: bit(leaves.basic_edx, 14),
        cmov: bit(leaves.basic_edx, 15),
        pat: bit(leaves.basic_edx, 16),
        pse36: bit(leaves.basic_edx, 17),
        psn: bit(leaves.basic_edx, 18),
        clfsh: bit(leaves.basic_edx, 19),
        ds: bit(leaves.basic_edx, 21),
        acpi: bit(leaves.basic_edx, 22),
        mmx: bit(leaves.basic_edx, 23),
        fxsr: bit(leaves.basic_edx, 24),
        sse: bit(leaves.basic_edx, 25),
        sse2: bit(leaves.basic_edx, 26),
        ss: bit(leaves.basic_edx, 27),
        htt: bit(leaves.basic_edx, 28),
        tm: bit(leaves.basic_edx, 29),
        ia64: bit(leaves.basic_edx, 30),
        pbe: bit(leaves.basic_edx, 31),
        sse3: bit(leaves.basic_ecx, 0),
        pclmulqdq: bit(leaves.basic_ecx, 1),
        dtes64: bit(leaves.basic_ecx, 2),
        monitor: bit(leaves.basic_ecx, 3),
        ds_cpl: bit(leaves.basic_ecx, 4),
        vmx: bit(leaves.basic_ecx, 5),
        smx: bit(leaves.basic_ecx, 6),
        est: bit(leaves.basic_ecx, 7),
        tm2: bit(leaves.basic_ecx, 8),
        ssse3: bit(leaves.basic_ecx, 9),
        cnxt_id: bit(leaves.basic_ecx, 10),
        sdbg: bit(leaves.basic_ecx, 11),
        fma: bit(leaves.basic_ecx, 12),
        cx16: bit(leaves.basic_ecx, 13),
        xtpr: bit(leaves.basic_ecx, 14),
        pdcm: bit(leaves.basic_ecx, 15),
        pcid: bit(leaves.basic_ecx, 17),
        dca: bit(leaves.basic_ecx, 18),
        sse4_1: bit(leaves.basic_ecx, 19),
        sse4_2: bit(leaves.basic_ecx, 20),
        x2apic: bit(leaves.basic_ecx, 21),
        movbe: bit(leaves.basic_ecx, 22),
        popcnt: bit(leaves.basic_ecx, 23),
        tsc_deadline: bit(leaves.basic_ecx, 24),
        aes: bit(leaves.basic_ecx, 25),
        xsave: bit(leaves.basic_ecx, 26),
        osxsave: bit(leaves.basic_ecx, 27),
        avx: bit(leaves.basic_ecx, 28),
        f16c: bit(leaves.basic_ecx, 29),
        rdrand: bit(leaves.basic_ecx, 30),
        hypervisor: bit(leaves.basic_ecx, 31),
        syscall: has_extended_leaf(leaves) && bit(leaves.extended_edx, 11),
        mp: has_extended_leaf(leaves) && bit(leaves.extended_edx, 19),
        nx: has_extended_leaf(leaves) && bit(leaves.extended_edx, 20),
        mmxext: has_extended_leaf(leaves) && bit(leaves.extended_edx, 22),
        fxsr_opt: has_extended_leaf(leaves) && bit(leaves.extended_edx, 25),
        pdpe1gb: has_extended_leaf(leaves) && bit(leaves.extended_edx, 26),
        rdtscp: has_extended_leaf(leaves) && bit(leaves.extended_edx, 27),
        lm: has_extended_leaf(leaves) && bit(leaves.extended_edx, 29),
        threednowext: has_extended_leaf(leaves) && bit(leaves.extended_edx, 30),
        threednow: has_extended_leaf(leaves) && bit(leaves.extended_edx, 31),
        lahf_lm: has_extended_leaf(leaves) && bit(leaves.extended_ecx, 0),
        cmp_legacy: has_extended_leaf(leaves) && bit(leaves.extended_ecx, 1),
        svm: has_extended_leaf(leaves) && bit(leaves.extended_ecx, 2),
        extapic: has_extended_leaf(leaves) && bit(leaves.extended_ecx, 3),
        cr8_legacy: has_extended_leaf(leaves) && bit(leaves.extended_ecx, 4),
        abm: has_extended_leaf(leaves) && bit(leaves.extended_ecx, 5),
        sse4a: has_extended_leaf(leaves) && bit(leaves.extended_ecx, 6),
        misalignsse: has_extended_leaf(leaves) && bit(leaves.extended_ecx, 7),
        threednowprefetch: has_extended_leaf(leaves) && bit(leaves.extended_ecx, 8),
        osvw: has_extended_leaf(leaves) && bit(leaves.extended_ecx, 9),
        ibs: has_extended_leaf(leaves) && bit(leaves.extended_ecx, 10),
        xop: has_extended_leaf(leaves) && bit(leaves.extended_ecx, 11),
        skinit: has_extended_leaf(leaves) && bit(leaves.extended_ecx, 12),
        wdt: has_extended_leaf(leaves) && bit(leaves.extended_ecx, 13),
        lwp: has_extended_leaf(leaves) && bit(leaves.extended_ecx, 15),
        fma4: has_extended_leaf(leaves) && bit(leaves.extended_ecx, 16),
        tce: has_extended_leaf(leaves) && bit(leaves.extended_ecx, 17),
        nodeid_msr: has_extended_leaf(leaves) && bit(leaves.extended_ecx, 19),
        tbm: has_extended_leaf(leaves) && bit(leaves.extended_ecx, 21),
        topoext: has_extended_leaf(leaves) && bit(leaves.extended_ecx, 22),
        perfctr_core: has_extended_leaf(leaves) && bit(leaves.extended_ecx, 23),
        perfctr_nb: has_extended_leaf(leaves) && bit(leaves.extended_ecx, 24),
        bpext: has_extended_leaf(leaves) && bit(leaves.extended_ecx, 26),
        ptsc: has_extended_leaf(leaves) && bit(leaves.extended_ecx, 27),
        perfctr_llc: has_extended_leaf(leaves) && bit(leaves.extended_ecx, 28),
        mwaitx: has_extended_leaf(leaves) && bit(leaves.extended_ecx, 29),
        fsgsbase: bit(leaves.leaf7_ebx, 0),
        tsc_adjust: bit(leaves.leaf7_ebx, 1),
        sgx: bit(leaves.leaf7_ebx, 2),
        bmi1: bit(leaves.leaf7_ebx, 3),
        hle: bit(leaves.leaf7_ebx, 4),
        avx2: bit(leaves.leaf7_ebx, 5),
        fdp_excptn_only: bit(leaves.leaf7_ebx, 6),
        smep: bit(leaves.leaf7_ebx, 7),
        bmi2: bit(leaves.leaf7_ebx, 8),
        rep_movsb_stosb: bit(leaves.leaf7_ebx, 9),
        invpcid: bit(leaves.leaf7_ebx, 10),
        rtm: bit(leaves.leaf7_ebx, 11),
        rdt_m: bit(leaves.leaf7_ebx, 12),
        dep_fpu_cs_ds: bit(leaves.leaf7_ebx, 13),
        mpx: bit(leaves.leaf7_ebx, 14),
        rdt_a: bit(leaves.leaf7_ebx, 15),
        avx512f: bit(leaves.leaf7_ebx, 16),
        avx512dq: bit(leaves.leaf7_ebx, 17),
        rdseed: bit(leaves.leaf7_ebx, 18),
        adx: bit(leaves.leaf7_ebx, 19),
        smap: bit(leaves.leaf7_ebx, 20),
        avx512ifma: bit(leaves.leaf7_ebx, 21),
        pcommit: bit(leaves.leaf7_ebx, 22),
        clflushopt: bit(leaves.leaf7_ebx, 23),
        clwb: bit(leaves.leaf7_ebx, 24),
        intel_pt: bit(leaves.leaf7_ebx, 25),
        avx512pf: bit(leaves.leaf7_ebx, 26),
        avx512er: bit(leaves.leaf7_ebx, 27),
        avx512cd: bit(leaves.leaf7_ebx, 28),
        sha: bit(leaves.leaf7_ebx, 29),
        avx512bw: bit(leaves.leaf7_ebx, 30),
        avx512vl: bit(leaves.leaf7_ebx, 31),
        prefetchwt1: bit(leaves.leaf7_ecx, 0),
        avx512vbmi: bit(leaves.leaf7_ecx, 1),
        umip: bit(leaves.leaf7_ecx, 2),
        pku: bit(leaves.leaf7_ecx, 3),
        ospke: bit(leaves.leaf7_ecx, 4),
        waitpkg: bit(leaves.leaf7_ecx, 5),
        avx512vbmi2: bit(leaves.leaf7_ecx, 6),
        cet_ss: bit(leaves.leaf7_ecx, 7),
        gfni: bit(leaves.leaf7_ecx, 8),
        vaes: bit(leaves.leaf7_ecx, 9),
        vpclmulqdq: bit(leaves.leaf7_ecx, 10),
        avx512vnni: bit(leaves.leaf7_ecx, 11),
        avx512bitalg: bit(leaves.leaf7_ecx, 12),
        tme: bit(leaves.leaf7_ecx, 13),
        avx512vpopcntdq: bit(leaves.leaf7_ecx, 14),
        la57: bit(leaves.leaf7_ecx, 15),
        rdpid: bit(leaves.leaf7_ecx, 16),
        keylocker: bit(leaves.leaf7_ecx, 17),
        bus_lock_detect: bit(leaves.leaf7_ecx, 18),
        cldemote: bit(leaves.leaf7_ecx, 19),
        movdiri: bit(leaves.leaf7_ecx, 20),
        movdir64b: bit(leaves.leaf7_ecx, 21),
        enqcmd: bit(leaves.leaf7_ecx, 22),
        sgx_lc: bit(leaves.leaf7_ecx, 23),
        pks: bit(leaves.leaf7_ecx, 24),
    }
}

impl Default for CpuFeatures {
    /// No feature at all.
    fn default() -> (features: CpuFeatures)
        ensures
            features == features_of(
                CpuidLeaves {
                    max_extended: 0,
                    extended_ecx: 0,
                    extended_edx: 0,
                    basic_ecx: 0,
                    basic_edx: 0,
                    leaf7_ebx: 0,
                    leaf7_ecx: 0,
                },
            ),
    {
        assert(forall|n: u32| n < 32 ==> 0u32 & (1u32 << n) == 0) by (bit_vector);
        CpuFeatures {
            fpu: false,
            vme: false,
            de: false,
            pse: false,
            tsc: false,
            msr: false,
            pae: false,
            mce: false,
            cx8: false,
            apic: false,
            sep: false,
            mtrr: false,
            pge: false,
            mca: false,
            cmov: false,
            pat: false,
            pse36: false,
            psn: false,
            clfsh: false,
            ds: false,
            acpi: false,
            mmx: false,
            fxsr: false,
            sse: false,
            sse2: false,
            ss: false,
            htt: false,
            tm: false,
            ia64: false,
            pbe: false,
            sse3: false,
            pclmulqdq: false,
            dtes64: false,
            monitor: false,
            ds_cpl: false,
            vmx: false,
            smx: false,
            est: false,
            tm2: false,
            ssse3: false,
            cnxt_id: false,
            sdbg: false,
            fma: false,
            cx16: false,
            xtpr: false,
            pdcm: false,
            pcid: false,
            dca: false,
            sse4_1: false,
            sse4_2: false,
            x2apic: false,
            movbe: false,
            popcnt: false,
            tsc_deadline: false,
            aes: false,
            xsave: false,
            osxsave: false,
            avx: false,
            f16c: false,
            rdrand: false,
            hypervisor: false,
            syscall: false,
            mp: false,
            nx: false,
            mmxext: false,
            fxsr_opt: false,
            pdpe1gb: false,
            rdtscp: false,
            lm: false,
            threednowext: false,
            threednow: false,
            lahf_lm: false,
            cmp_legacy: false,
            svm: false,
            extapic: false,
            cr8_legacy: false,
            abm: false,
            sse4a: false,
            misalignsse: false,
            threednowprefetch: false,
            osvw: false,
            ibs: false,
            xop: false,
            skinit: false,
            wdt: false,
            lwp: false,
            fma4: false,
            tce: false,
            nodeid_msr: false,
            tbm: false,
            topoext: false,
            perfctr_core: false,
            perfctr_nb: false,
            bpext: false,
            ptsc: false,
            perfctr_llc: false,
            mwaitx: false,
            fsgsbase: false,
            tsc_adjust: false,
            sgx: false,
            bmi1: false,
            hle: false,
            avx2: false,
            fdp_excptn_only: false,
            smep: false,
            bmi2: false,
            rep_movsb_stosb: false,
            invpcid: false,
            rtm: false,
            rdt_m: false,
            dep_fpu_cs_ds: false,
            mpx: false,
            rdt_a: false,
            avx512f: false,
            avx512dq: false,
            rdseed: false,
            adx: false,
            smap: false,
            avx512ifma: false,
            pcommit: false,
            clflushopt: false,
            clwb: false,
            intel_pt: false,
            avx512pf: false,
            avx512er: false,
            avx512cd: false,
            sha: false,
            avx512bw: false,
            avx512vl: false,
            prefetchwt1: false,
            avx512vbmi: false,
            umip: false,
            pku: false,
            ospke: false,
            waitpkg: false,
            avx512vbmi2: false,
            cet_ss: false,
            gfni: false,
            vaes: false,
            vpclmulqdq: false,
            avx512vnni: false,
            avx512bitalg: false,
            tme: false,
            avx512vpopcntdq: false,
            la57: false,
            rdpid: false,
            keylocker: false,
            bus_lock_detect: false,
            cldemote: false,
            movdiri: false,
            movdir64b: false,
            enqcmd: false,
            sgx_lc: false,
            pks: false,
        }
    }
}

/// Whether the extended feature leaf is to be read: the processor must
/// report it as present.
pub fn needs_extended_leaf(max_extended: u32) -> (needed: bool)
    ensures
        needed == (max_extended >= EXTENDED_FEATURE_LEAF),
{
    max_extended >= EXTENDED_FEATURE_LEAF
}

/// The features that the identification leaves report.
pub fn detect_cpu_features(leaves: &CpuidLeaves) -> (features: CpuFeatures)
    ensures
        features == features_of(*leaves),
{
    let extended = leaves.max_extended >= EXTENDED_FEATURE_LEAF;
    CpuFeatures {
        fpu: bit_set(leaves.basic_edx, 0),
        vme: bit_set(leaves.basic_edx, 1),
        de: bit_set(leaves.basic_edx, 2),
        pse: bit_set(leaves.basic_edx, 3),
        tsc: bit_set(leaves.basic_edx, 4),
        msr: bit_set(leaves.basic_edx, 5),
        pae: bit_set(leaves.basic_edx, 6),
        mce: bit_set(leaves.basic_edx, 7),
        cx8: bit_set(leaves.basic_edx, 8),
        apic: bit_set(leaves.basic_edx, 9),
        sep: bit_set(leaves.basic_edx, 11),
        mtrr: bit_set(leaves.basic_edx, 12),
        pge: bit_set(leaves.basic_edx, 13),
        mca: bit_set(leaves.basic_edx, 14),
        cmov: bit_set(leaves.basic_edx, 15),
        pat: bit_set(leaves.basic_edx, 16),
        pse36: bit_set(leaves.basic_edx, 17),
        psn: bit_set(leaves.basic_edx, 18),
        clfsh: bit_set(leaves.basic_edx, 19),
        ds: bit_set(leaves.basic_edx, 21),
        acpi: bit_set(leaves.basic_edx, 22),
        mmx: bit_set(leaves.basic_edx, 23),
        fxsr: bit_set(leaves.basic_edx, 24),
        sse: bit_set(leaves.basic_edx, 25),
        sse2: bit_set(leaves.basic_edx, 26),
        ss: bit_set(leaves.basic_edx, 27),
        htt: bit_set(leaves.basic_edx, 28),
        tm: bit_set(leaves.basic_edx, 29),
        ia64: bit_set(leaves.basic_edx, 30),
        pbe: bit_set(leaves.basic_edx, 31),
        sse3: bit_set(leaves.basic_ecx, 0),
        pclmulqdq: bit_set(leaves.basic_ecx, 1),
        dtes64: bit_set(leaves.basic_ecx, 2),
        monitor: bit_set(leaves.basic_ecx, 3),
        ds_cpl: bit_set(leaves.basic_ecx, 4),
        vmx: bit_set(leaves.basic_ecx, 5),
        smx: bit_set(leaves.basic_ecx, 6),
        est: bit_set(leaves.basic_ecx, 7),
        tm2: bit_set(leaves.basic_ecx, 8),
        ssse3: bit_set(leaves.basic_ecx, 9),
        cnxt_id: bit_set(leaves.basic_ecx, 10),
        sdbg: bit_set(leaves.basic_ecx, 11),
        fma: bit_set(leaves.basic_ecx, 12),
        cx16: bit_set(leaves.basic_ecx, 13),
        xtpr: bit_set(leaves.basic_ecx, 14),
        pdcm: bit_set(leaves.basic_ecx, 15),
        pcid: bit_set(leaves.basic_ecx, 17),
        dca: bit_set(leaves.basic_ecx, 18),
        sse4_1: bit_set(leaves.basic_ecx, 19),
        sse4_2: bit_set(leaves.basic_ecx, 20),
        x2apic: bit_set(leaves.basic_ecx, 21),
        movbe: bit_set(leaves.basic_ecx, 22),
        popcnt: bit_set(leaves.basic_ecx, 23),
        tsc_deadline: bit_set(leaves.basic_ecx, 24),
        aes: bit_set(leaves.basic_ecx, 25),
        xsave: bit_set(leaves.basic_ecx, 26),
        osxsave: bit_set(leaves.basic_ecx, 27),
        avx: bit_set(leaves.basic_ecx, 28),
        f16c: bit_set(leaves.basic_ecx, 29),
        rdrand: bit_set(leaves.basic_ecx, 30),
        hypervisor: bit_set(leaves.basic_ecx, 31),
        syscall: extended && bit_set(leaves.extended_edx, 11),
        mp: extended && bit_set(leaves.extended_edx, 19),
        nx: extended && bit_set(leaves.extended_edx, 20),
        mmxext: extended && bit_set(leaves.extended_edx, 22),
        fxsr_opt: extended && bit_set(leaves.extended_edx, 25),
        pdpe1gb: extended && bit_set(leaves.extended_edx, 26),
        rdtscp: extended && bit_set(leaves.extended_edx, 27),
        lm: extended && bit_set(leaves.extended_edx, 29),
        threednowext: extended && bit_set(leaves.extended_edx, 30),
        threednow: extended && bit_set(leaves.extended_edx, 31),
        lahf_lm: extended && bit_set(leaves.extended_ecx, 0),
        cmp_legacy: extended && bit_set(leaves.extended_ecx, 1),
        svm: extended && bit_set(leaves.extended_ecx, 2),
        extapic: extended && bit_set(leaves.extended_ecx, 3),
        cr8_legacy: extended && bit_set(leaves.extended_ecx, 4),
        abm: extended && bit_set(leaves.extended_ecx, 5),
        sse4a: extended && bit_set(leaves.extended_ecx, 6),
        misalignsse: extended && bit_set(leaves.extended_ecx, 7),
        threednowprefetch: extended && bit_set(leaves.extended_ecx, 8),
        osvw: extended && bit_set(leaves.extended_ecx, 9),
        ibs: extended && bit_set(leaves.extended_ecx, 10),
        xop: extended && bit_set(leaves.extended_ecx, 11),
        skinit: extended && bit_set(leaves.extended_ecx, 12),
        wdt: extended && bit_set(leaves.extended_ecx, 13),
        lwp: extended && bit_set(leaves.extended_ecx, 15),
        fma4: extended && bit_set(leaves.extended_ecx, 16),
        tce: extended && bit_set(leaves.extended_ecx, 17),
        nodeid_msr: extended && bit_set(leaves.extended_ecx, 19),
        tbm: extended && bit_set(leaves.extended_ecx, 21),
        topoext: extended && bit_set(leaves.extended_ecx, 22),
        perfctr_core: extended && bit_set(leaves.extended_ecx, 23),
        perfctr_nb: extended && bit_set(leaves.extended_ecx, 24),
        bpext: extended && bit_set(leaves.extended_ecx, 26),
        ptsc: extended && bit_set(leaves.extended_ecx, 27),
        perfctr_llc: extended && bit_set(leaves.extended_ecx, 28),
        mwaitx: extended && bit_set(leaves.extended_ecx, 29),
        fsgsbase: bit_set(leaves.leaf7_ebx, 0),
        tsc_adjust: bit_set(leaves.leaf7_ebx, 1),
        sgx: bit_set(leaves.leaf7_ebx, 2),
        bmi1: bit_set(leaves.leaf7_ebx, 3),
        hle: bit_set(leaves.leaf7_ebx, 4),
        avx2: bit_set(leaves.leaf7_ebx, 5),
        fdp_excptn_only: bit_set(leaves.leaf7_ebx, 6),
        smep: bit_set(leaves.leaf7_ebx, 7),
        bmi2: bit_set(leaves.leaf7_ebx, 8),
        rep_movsb_stosb: bit_set(leaves.leaf7_ebx, 9),
        invpcid: bit_set(leaves.leaf7_ebx, 10),
        rtm: bit_set(leaves.leaf7_ebx, 11),
        rdt_m: bit_set(leaves.leaf7_ebx, 12),
        dep_fpu_cs_ds: bit_set(leaves.leaf7_ebx, 13),
        mpx: bit_set(leaves.leaf7_ebx, 14),
        rdt_a: bit_set(leaves.leaf7_ebx, 15),
        avx512f: bit_set(leaves.leaf7_ebx, 16),
        avx512dq: bit_set(leaves.leaf7_ebx, 17),
        rdseed: bit_set(leaves.leaf7_ebx, 18),
        adx: bit_set(leaves.leaf7_ebx, 19),
        smap: bit_set(leaves.leaf7_ebx, 20),
        avx512ifma: bit_set(leaves.leaf7_ebx, 21),
        pcommit: bit_set(leaves.leaf7_ebx, 22),
        clflushopt: bit_set(leaves.leaf7_ebx, 23),
        clwb: bit_set(leaves.leaf7_ebx, 24),
        intel_pt: bit_set(leaves.leaf7_ebx, 25),
        avx512pf: bit_set(leaves.leaf7_ebx, 26),
        avx512er: bit_set(leaves.leaf7_ebx, 27),
        avx512cd: bit_set(leaves.leaf7_ebx, 28),
        sha: bit_set(leaves.leaf7_ebx, 29),
        avx512bw: bit_set(leaves.leaf7_ebx, 30),
        avx512vl: bit_set(leaves.leaf7_ebx, 31),
        prefetchwt1: bit_set(leaves.leaf7_ecx, 0),
        avx512vbmi: bit_set(leaves.leaf7_ecx, 1),
        umip: bit_set(leaves.leaf7_ecx, 2),
        pku: bit_set(leaves.leaf7_ecx, 3),
        ospke: bit_set(leaves.leaf7_ecx, 4),
        waitpkg: bit_set(leaves.leaf7_ecx, 5),
        avx512vbmi2: bit_set(leaves.leaf7_ecx, 6),
        cet_ss: bit_set(leaves.leaf7_ecx, 7),
        gfni: bit_set(leaves.leaf7_ecx, 8),
        vaes: bit_set(leaves.leaf7_ecx, 9),
        vpclmulqdq: bit_set(leaves.leaf7_ecx, 10),
        avx512vnni: bit_set(leaves.leaf7_ecx, 11),
        avx512bitalg: bit_set(leaves.leaf7_ecx, 12),
        tme: bit_set(leaves.leaf7_ecx, 13),
        avx512vpopcntdq: bit_set(leaves.leaf7_ecx, 14),
        la57: bit_set(leaves.leaf7_ecx, 15),
        rdpid: bit_set(leaves.leaf7_ecx, 16),
        keylocker: bit_set(leaves.leaf7_ecx, 17),
        bus_lock_detect: bit_set(leaves.leaf7_ecx, 18),
        cldemote: bit_set(leaves.leaf7_ecx, 19),
        movdiri: bit_set(leaves.leaf7_ecx, 20),
        movdir64b: bit_set(leaves.leaf7_ecx, 21),
        enqcmd: bit_set(leaves.leaf7_ecx, 22),
        sgx_lc: bit_set(leaves.leaf7_ecx, 23),
        pks: bit_set(leaves.leaf7_ecx, 24),
    }
}

/// One thing to do to switch the features of the processor on.
#[derive(Debug, Clone, Copy, PartialEq, Eq)]
pub enum CpuStep {
    /// Clear the emulation bit and set the monitor bit of CR0, and set the
    /// two SSE bits of CR4.
    EnableSse,
    /// Set the AVX bit of the extended control register 0.
    EnableAvx,
    /// Stop the interval timer: from now on time comes from the
    /// time-stamp counter.
    DisablePit,
    /// Report `0`.
    Message(&'static str),
}

/// A byte to be written to a port.
#[derive(Debug, Clone, Copy, PartialEq, Eq, Structural)]
pub struct PortWrite {
    pub port: u16,
    pub value: u8,
}

/// How many features the kernel has something to do for.
pub const ENABLED_FEATURES: u8 = 36;

/// Whether there is something to do for feature number `k` of the
/// kernel's list, given the features `f` of the processor.
pub open spec fn feature_wanted(f: CpuFeatures, k: int) -> bool {
    if k == 0 {
        f.sse
    } else if k == 1 {
        f.tsc
    } else if k == 2 {
        f.sse2
    } else if k == 3 {
        f.sse3
    } else if k == 4 {
        f.ssse3
    } else if k == 5 {
        f.sse4_1
    } else if k == 6 {
        f.sse4_2
    } else if k == 7 {
        f.avx && f.osxsave
    } else if k == 8 {
        f.avx2
    } else if k == 9 {
        f.f16c
    } else if k == 10 {
        f.fma
    } else if k == 11 {
        f.avx512f
    } else if k == 12 {
        f.avx512dq
    } else if k == 13 {
        f.avx512ifma
    } else if k == 14 {
        f.avx512pf
    } else if k == 15 {
        f.avx512er
    } else if k == 16 {
        f.avx512cd
    } else if k == 17 {
        f.avx512bw
    } else if k == 18 {
        f.avx512vl
    } else if k == 19 {
        f.avx512vbmi
    } else if k == 20 {
        f.avx512vbmi2
    } else if k == 21 {
        f.avx512vnni
    } else if k == 22 {
        f.avx512bitalg
    } else if k == 23 {
        f.avx512vpopcntdq
    } else if k == 24 {
        f.mmx
    } else if k == 25 {
        f.mmxext
    } else if k == 26 {
        f.threednow
    } else if k == 27 {
        f.threednowext
    } else if k == 28 {
        f.aes
    } else if k == 29 {
        f.sha
    } else if k == 30 {
        f.rdrand
    } else if k == 31 {
        f.rdseed
    } else if k == 32 {
        f.adx
    } else if k == 33 {
        f.bmi1
    } else if k == 34 {
        f.bmi2
    } else if k == 35 {
        f.popcnt
    } else {
        false
    }
}

/// What is done for feature number `k` of the kernel's list: what it
/// takes to switch the feature on, and a message that says so.
pub open spec fn feature_steps(k: int) -> Seq<CpuStep> {
    if k == 0 {
        seq![CpuStep::EnableSse, CpuStep::Message("[CPU] Enabled SSE")]
    } else if k == 1 {
        seq![CpuStep::Message("[CPU] Enabled TSC"), CpuStep::DisablePit]
    } else if k == 2 {
        seq![CpuStep::Message("[CPU] Enabled SSE2")]
    } else if k == 3 {
        seq![CpuStep::Message("[CPU] Enabled SSE3")]
    } else if k == 4 {
        seq![CpuStep::Message("[CPU] Enabled SSSE3")]
    } else if k == 5 {
        seq![CpuStep::Message("[CPU] Enabled SSE4.1")]
    } else if k == 6 {
        seq![CpuStep::Message("[CPU] Enabled SSE4.2")]
    } else if k == 7 {
        seq![CpuStep::EnableAvx, CpuStep::Message("[CPU] Enabled AVX")]
    } else if k == 8 {
        seq![CpuStep::Message("[CPU] Enabled AVX2")]
    } else if k == 9 {
        seq![CpuStep::Message("[CPU] Enabled F16C")]
    } else if k == 10 {
        seq![CpuStep::Message("[CPU] Enabled FMA")]
    } else if k == 11 {
        seq![CpuStep::Message("[CPU] Enabled AVX-512F")]
    } else if k == 12 {
        seq![CpuStep::Message("[CPU] Enabled AVX-512DQ")]
    } else if k == 13 {
        seq![CpuStep::Message("[CPU] Enabled AVX-512IFMA")]
    } else if k == 14 {
        seq![CpuStep::Message("[CPU] Enabled AVX-512PF")]
    } else if k == 15 {
        seq![CpuStep::Message("[CPU] Enabled AVX-512ER")]
    } else if k == 16 {
        seq![CpuStep::Message("[CPU] Enabled AVX-512CD")]
    } else if k == 17 {
        seq![CpuStep::Message("[CPU] Enabled AVX-512BW")]
    } else if k == 18 {
        seq![CpuStep::Message("[CPU] Enabled AVX-512VL")]
    } else if k == 19 {
        seq![CpuStep::Message("[CPU] Enabled AVX-512VBMI")]
    } else if k == 20 {
        seq![CpuStep::Message("[CPU] Enabled AVX-512VBMI2")]
    } else if k == 21 {
        seq![CpuStep::Message("[CPU] Enabled AVX-512VNNI")]
    } else if k == 22 {
        seq![CpuStep::Message("[CPU] Enabled AVX-512BITALG")]
    } else if k == 23 {
        seq![CpuStep::Message("[CPU] Enabled AVX-512VPOPCNTDQ")]
    } else if k == 24 {
        seq![CpuStep::Message("[CPU] Enabled MMX")]
    } else if k == 25 {
        seq![CpuStep::Message("[CPU] Enabled MMXEXT")]
    } else if k == 26 {
        seq![CpuStep::Message("[CPU] Enabled 3DNow!")]
    } else if k == 27 {
        seq![CpuStep::Message("[CPU] Enabled 3DNow!Ext")]
    } else if k == 28 {
        seq![CpuStep::Message("[CPU] Enabled AES")]
    } else if k == 29 {
        seq![CpuStep::Message("[CPU] Enabled SHA")]
    } else if k == 30 {
        seq![CpuStep::Message("[CPU] Enabled RDRAND")]
    } else if k == 31 {
        seq![CpuStep::Message("[CPU] Enabled RDSEED")]
    } else if k == 32 {
        seq![CpuStep::Message("[CPU] Enabled ADX")]
    } else if k == 33 {
        seq![CpuStep::Message("[CPU] Enabled BMI1")]
    } else if k == 34 {
        seq![CpuStep::Message("[CPU] Enabled BMI2")]
    } else if k == 35 {
        seq![CpuStep::Message("[CPU] Enabled POPCNT")]
    } else {
        Seq::empty()
    }
}

/// What is to be done for the first `n` features of the kernel's list, in
/// the order of the list, given the features `f` of the processor.
pub open spec fn enable_steps_upto(f: CpuFeatures, n: int) -> Seq<CpuStep>
    decreases n,
{
    if n <= 0 {
        Seq::empty()
    } else if feature_wanted(f, n - 1) {
        enable_steps_upto(f, n - 1) + feature_steps(n - 1)
    } else {
        enable_steps_upto(f, n - 1)
    }
}

/// What is to be done for the features `f` of the processor, in order.
pub open spec fn enable_steps(f: CpuFeatures) -> Seq<CpuStep> {
    enable_steps_upto(f, ENABLED_FEATURES as int)
}

/// Whether there is something to do for feature number `k`.
pub fn wanted(f: &CpuFeatures, k: u8) -> (yes: bool)
    ensures
        yes == feature_wanted(*f, k as int),
{
    if k == 0 {
        f.sse
    } else if k == 1 {
        f.tsc
    } else if k == 2 {
        f.sse2
    } else if k == 3 {
        f.sse3
    } else if k == 4 {
        f.ssse3
    } else if k == 5 {
        f.sse4_1
    } else if k == 6 {
        f.sse4_2
    } else if k == 7 {
        f.avx && f.osxsave
    } else if k == 8 {
        f.avx2
    } else if k == 9 {
        f.f16c
    } else if k == 10 {
        f.fma
    } else if k == 11 {
        f.avx512f
    } else if k == 12 {
        f.avx512dq
    } else if k == 13 {
        f.avx512ifma
    } else if k == 14 {
        f.avx512pf
    } else if k == 15 {
        f.avx512er
    } else if k == 16 {
        f.avx512cd
    } else if k == 17 {
        f.avx512bw
    } else if k == 18 {
        f.avx512vl
    } else if k == 19 {
        f.avx512vbmi
    } else if k == 20 {
        f.avx512vbmi2
    } else if k == 21 {
        f.avx512vnni
    } else if k == 22 {
        f.avx512bitalg
    } else if k == 23 {
        f.avx512vpopcntdq
    } else if k == 24 {
        f.mmx
    } else if k == 25 {
        f.mmxext
    } else if k == 26 {
        f.threednow
    } else if k == 27 {
        f.threednowext
    } else if k == 28 {
        f.aes
    } else if k == 29 {
        f.sha
    } else if k == 30 {
        f.rdrand
    } else if k == 31 {
        f.rdseed
    } else if k == 32 {
        f.adx
    } else if k == 33 {
        f.bmi1
    } else if k == 34 {
        f.bmi2
    } else if k == 35 {
        f.popcnt
    } else {
        false
    }
}

/// Appends to `steps` what is done for feature number `k`.
pub fn push_feature_steps(steps: &mut Vec<CpuStep>, k: u8)
    ensures
        final(steps)@ == old(steps)@ + feature_steps(k as int),
{
    if k == 0 {
        steps.push(CpuStep::EnableSse);
        steps.push(CpuStep::Message("[CPU] Enabled SSE"));
        assert(steps@ =~= old(steps)@ + feature_steps(0));
    } else if k == 1 {
        steps.push(CpuStep::Message("[CPU] Enabled TSC"));
        steps.push(CpuStep::DisablePit);
        assert(steps@ =~= old(steps)@ + feature_steps(1));
    } else if k == 2 {
        steps.push(CpuStep::Message("[CPU] Enabled SSE2"));
        assert(steps@ =~= old(steps)@ + feature_steps(2));
    } else if k == 3 {
        steps.push(CpuStep::Message("[CPU] Enabled SSE3"));
        assert(steps@ =~= old(steps)@ + feature_steps(3));
    } else if k == 4 {
        steps.push(CpuStep::Message("[CPU] Enabled SSSE3"));
        assert(steps@ =~= old(steps)@ + feature_steps(4));
    } else if k == 5 {
        steps.push(CpuStep::Message("[CPU] Enabled SSE4.1"));
        assert(steps@ =~= old(steps)@ + feature_steps(5));
    } else if k == 6 {
        steps.push(CpuStep::Message("[CPU] Enabled SSE4.2"));
        assert(steps@ =~= old(steps)@ + feature_steps(6));
    } else if k == 7 {
        steps.push(CpuStep::EnableAvx);
        steps.push(CpuStep::Message("[CPU] Enabled AVX"));
        assert(steps@ =~= old(steps)@ + feature_steps(7));
    } else if k == 8 {
        steps.push(CpuStep::Message("[CPU] Enabled AVX2"));
        assert(steps@ =~= old(steps)@ + feature_steps(8));
    } else if k == 9 {
        steps.push(CpuStep::Message("[CPU] Enabled F16C"));
        assert(steps@ =~= old(steps)@ + feature_steps(9));
    } else if k == 10 {
        steps.push(CpuStep::Message("[CPU] Enabled FMA"));
        assert(steps@ =~= old(steps)@ + feature_steps(10));
    } else if k == 11 {
        steps.push(CpuStep::Message("[CPU] Enabled AVX-512F"));
        assert(steps@ =~= old(steps)@ + feature_steps(11));
    } else if k == 12 {
        steps.push(CpuStep::Message("[CPU] Enabled AVX-512DQ"));
        assert(steps@ =~= old(steps)@ + feature_steps(12));
    } else if k == 13 {
        steps.push(CpuStep::Message("[CPU] Enabled AVX-512IFMA"));
        assert(steps@ =~= old(steps)@ + feature_steps(13));
    } else if k == 14 {
        steps.push(CpuStep::Message("[CPU] Enabled AVX-512PF"));
        assert(steps@ =~= old(steps)@ + feature_steps(14));
    } else if k == 15 {
        steps.push(CpuStep::Message("[CPU] Enabled AVX-512ER"));
        assert(steps@ =~= old(steps)@ + feature_steps(15));
    } else if k == 16 {
        steps.push(CpuStep::Message("[CPU] Enabled AVX-512CD"));
        assert(steps@ =~= old(steps)@ + feature_steps(16));
    } else if k == 17 {
        steps.push(CpuStep::Message("[CPU] Enabled AVX-512BW"));
        assert(steps@ =~= old(steps)@ + feature_steps(17));
    } else if k == 18 {
        steps.push(CpuStep::Message("[CPU] Enabled AVX-512VL"));
        assert(steps@ =~= old(steps)@ + feature_steps(18));
    } else if k == 19 {
        steps.push(CpuStep::Message("[CPU] Enabled AVX-512VBMI"));
        assert(steps@ =~= old(steps)@ + feature_steps(19));
    } else if k == 20 {
        steps.push(CpuStep::Message("[CPU] Enabled AVX-512VBMI2"));
        assert(steps@ =~= old(steps)@ + feature_steps(20));
    } else if k == 21 {
        steps.push(CpuStep::Message("[CPU] Enabled AVX-512VNNI"));
        assert(steps@ =~= old(steps)@ + feature_steps(21));
    } else if k == 22 {
        steps.push(CpuStep::Message("[CPU] Enabled AVX-512BITALG"));
        assert(steps@ =~= old(steps)@ + feature_steps(22));
    } else if k == 23 {
        steps.push(CpuStep::Message("[CPU] Enabled AVX-512VPOPCNTDQ"));
        assert(steps@ =~= old(steps)@ + feature_steps(23));
    } else if k == 24 {
        steps.push(CpuStep::Message("[CPU] Enabled MMX"));
        assert(steps@ =~= old(steps)@ + feature_steps(24));
    } else if k == 25 {
        steps.push(CpuStep::Message("[CPU] Enabled MMXEXT"));
        assert(steps@ =~= old(steps)@ + feature_steps(25));
    } else if k == 26 {
        steps.push(CpuStep::Message("[CPU] Enabled 3DNow!"));
        assert(steps@ =~= old(steps)@ + feature_steps(26));
    } else if k == 27 {
        steps.push(CpuStep::Message("[CPU] Enabled 3DNow!Ext"));
        assert(steps@ =~= old(steps)@ + feature_steps(27));
    } else if k == 28 {
        steps.push(CpuStep::Message("[CPU] Enabled AES"));
        assert(steps@ =~= old(steps)@ + feature_steps(28));
    } else if k == 29 {
        steps.push(CpuStep::Message("[CPU] Enabled SHA"));
        assert(steps@ =~= old(steps)@ + feature_steps(29));
    } else if k == 30 {
        steps.push(CpuStep::Message("[CPU] Enabled RDRAND"));
        assert(steps@ =~= old(steps)@ + feature_steps(30));
    } else if k == 31 {
        steps.push(CpuStep::Message("[CPU] Enabled RDSEED"));
        assert(steps@ =~= old(steps)@ + feature_steps(31));
    } else if k == 32 {
        steps.push(CpuStep::Message("[CPU] Enabled ADX"));
        assert(steps@ =~= old(steps)@ + feature_steps(32));
    } else if k == 33 {
        steps.push(CpuStep::Message("[CPU] Enabled BMI1"));
        assert(steps@ =~= old(steps)@ + feature_steps(33));
    } else if k == 34 {
        steps.push(CpuStep::Message("[CPU] Enabled BMI2"));
        assert(steps@ =~= old(steps)@ + feature_steps(34));
    } else if k == 35 {
        steps.push(CpuStep::Message("[CPU] Enabled POPCNT"));
        assert(steps@ =~= old(steps)@ + feature_steps(35));
    } else {
        assert(steps@ =~= old(steps)@ + feature_steps(k as int));
    }
}

/// What is to be done to switch on the features `features`, in the order
/// in which it is to be done.
pub fn enable_cpu_features(features: &CpuFeatures) -> (steps: Vec<CpuStep>)
    ensures
        steps@ == enable_steps(*features),
{
    let mut steps: Vec<CpuStep> = Vec::new();
    let mut k: u8 = 0;
    while k < ENABLED_FEATURES
        invariant
            k <= ENABLED_FEATURES,
            steps@ == enable_steps_upto(*features, k as int),
        decreases ENABLED_FEATURES - k,
    {
        if wanted(features, k) {
            push_feature_steps(&mut steps, k);
        }
        k += 1;
    }
    steps
}

/// The message that goes with stopping the interval timer.
pub const PIT_DISABLED_MESSAGE: &'static str = "[CPU] Disabled PIT timer, switched to TSC timing";

/// The writes that stop the interval timer: channel 0 is put into mode 0
/// with a count of zero.
pub fn disable_pit_timer() -> (writes: [PortWrite; 3])
    ensures
        writes@ == seq![
            PortWrite { port: 0x43, value: 0x30 },
            PortWrite { port: 0x40, value: 0x00 },
            PortWrite { port: 0x40, value: 0x00 },
        ],
{
    let writes = [
        PortWrite { port: 0x43, value: 0x30 },
        PortWrite { port: 0x40, value: 0x00 },
        PortWrite { port: 0x40, value: 0x00 },
    ];
    assert(writes@ =~= seq![
        PortWrite { port: 0x43, value: 0x30 },
        PortWrite { port: 0x40, value: 0x00 },
        PortWrite { port: 0x40, value: 0x00 },
    ]);
    writes
}

} // verus!
