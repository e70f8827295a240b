//! Whether and how the `glade-gwz` supplier is composed.

use crate::config::{Config, Settings};
use crate::text::{join_texts, joined_texts, texts};
use crate::text_laws::joined_runs_have_one_separator_between;
use vstd::prelude::*;

verus! {

/// What becomes of the supplier. It is optional: it can be switched off, and a
/// missing binary is skipped, never fatal.
#[derive(Debug, PartialEq, Eq)]
pub enum SupplierPlan {
    /// Suppliers are switched off.
    Disabled,
    /// There is no binary.
    Missing,
    /// The binary is started with these arguments.
    Spawn(Vec<String>),
}

/// What becomes of the supplier, over texts.
pub enum Composition {
    Disabled,
    Missing,
    Spawn(Seq<Seq<char>>),
}

impl View for SupplierPlan {
    type V = Composition;

    open spec fn view(&self) -> Composition {
        match self {
            SupplierPlan::Disabled => Composition::Disabled,
            SupplierPlan::Missing => Composition::Missing,
            SupplierPlan::Spawn(argv) => Composition::Spawn(texts(argv@)),
        }
    }
}

impl Settings {
    /// What becomes of the supplier, by whether its binary is there and the
    /// port at which the node listens.
    pub open spec fn composition(self, binary_exists: bool, node_ws_port: u16) -> Composition {
        if self.no_suppliers {
            Composition::Disabled
        } else if !binary_exists {
            Composition::Missing
        } else {
            Composition::Spawn(self.gwz_supplier_argv(node_ws_port))
        }
    }

    /// How it is announced.
    pub open spec fn supplier_notice(self, composition: Composition) -> Seq<char> {
        match composition {
            Composition::Disabled => "[grazel] suppliers disabled (--no-suppliers); node only"@,
            Composition::Missing => "[grazel] SKIP gwz supplier: binary not found at "@
                + self.gwz_supplier_bin
                + " (build ../glade-gwz or pass --gwz-supplier-bin; a supplier is optional)"@,
            Composition::Spawn(argv) => "[grazel] spawning gwz supplier: "@ + self.gwz_supplier_bin
                + " "@ + joined_texts(argv, ' '),
        }
    }
}

impl Config {
    /// Decides what becomes of the supplier.
    pub fn supplier_plan(&self, binary_exists: bool, node_ws_port: u16) -> (plan: SupplierPlan)
        ensures
            plan@ == self@.composition(binary_exists, node_ws_port),
    {
        if self.no_suppliers {
            SupplierPlan::Disabled
        } else if !binary_exists {
            SupplierPlan::Missing
        } else {
            SupplierPlan::Spawn(self.gwz_supplier_argv(node_ws_port))
        }
    }

    /// Announces what becomes of the supplier.
    pub fn supplier_notice(&self, plan: &SupplierPlan) -> (notice: String)
        ensures
            notice@ == self@.supplier_notice(plan@),
    {
        match plan {
            SupplierPlan::Disabled => {
                "[grazel] suppliers disabled (--no-suppliers); node only".to_owned()
            },
            SupplierPlan::Missing => {
                "[grazel] SKIP gwz supplier: binary not found at ".to_owned().concat(
                    self.gwz_supplier_bin.as_str(),
                ).concat(
                    " (build ../glade-gwz or pass --gwz-supplier-bin; a supplier is optional)",
                )
            },
            SupplierPlan::Spawn(argv) => {
                "[grazel] spawning gwz supplier: ".to_owned().concat(
                    self.gwz_supplier_bin.as_str(),
                ).concat(" ").concat(join_texts(argv, ' ').as_str())
            },
        }
    }
}

/// The supplier is started exactly where it is neither switched off nor
/// missing, and it is then told the node's own port.
pub proof fn supplier_starts_where_it_can(settings: Settings, binary_exists: bool, port: u16)
    ensures
        settings.composition(binary_exists, port) is Spawn <==> !settings.no_suppliers
            && binary_exists,
        settings.composition(binary_exists, port) is Spawn ==> settings.composition(
            binary_exists,
            port,
        )->Spawn_0 == settings.gwz_supplier_argv(port),
{
}

/// A plan is read as what it is, with the arguments that it holds.
pub proof fn plans_are_read_as_they_are(argv: Vec<String>)
    ensures
        SupplierPlan::Disabled@ == Composition::Disabled,
        SupplierPlan::Missing@ == Composition::Missing,
        SupplierPlan::Spawn(argv)@ is Spawn,
        SupplierPlan::Spawn(argv)@->Spawn_0.len() == argv@.len(),
        forall|i: int|
            0 <= i < argv@.len() ==> #[trigger] SupplierPlan::Spawn(argv)@->Spawn_0[i]
                == argv@[i]@,
{
}

/// Switching the suppliers off goes before a missing binary, and a missing
/// binary before starting. Neither the port nor another setting has a say in
/// which of the three it is.
pub proof fn supplier_has_three_fates(settings: Settings, binary_exists: bool, port: u16)
    ensures
        settings.no_suppliers ==> settings.composition(binary_exists, port)
            == Composition::Disabled,
        !settings.no_suppliers && !binary_exists ==> settings.composition(binary_exists, port)
            == Composition::Missing,
        !settings.no_suppliers && binary_exists ==> settings.composition(binary_exists, port)
            == Composition::Spawn(settings.gwz_supplier_argv(port)),
{
}

/// What is announced: that suppliers are off, or which binary was not found, or
/// which binary is started with which arguments, all of them, one space apart.
pub proof fn supplier_is_announced_so(settings: Settings, argv: Seq<Seq<char>>, last: Seq<char>)
    ensures
        settings.supplier_notice(Composition::Disabled)
            == "[grazel] suppliers disabled (--no-suppliers); node only"@,
        settings.supplier_notice(Composition::Missing)
            == "[grazel] SKIP gwz supplier: binary not found at "@ + settings.gwz_supplier_bin
            + " (build ../glade-gwz or pass --gwz-supplier-bin; a supplier is optional)"@,
        settings.supplier_notice(Composition::Spawn(Seq::empty()))
            == "[grazel] spawning gwz supplier: "@ + settings.gwz_supplier_bin + " "@,
        settings.supplier_notice(Composition::Spawn(seq![last]))
            == "[grazel] spawning gwz supplier: "@ + settings.gwz_supplier_bin + " "@ + last,
        argv.len() > 0 ==> settings.supplier_notice(Composition::Spawn(argv.push(last)))
            == settings.supplier_notice(Composition::Spawn(argv)) + seq![' '] + last,
{
    joined_runs_have_one_separator_between(argv, seq![last], ' ');
    joined_runs_have_one_separator_between(seq![last], argv, ' ');
    let start = "[grazel] spawning gwz supplier: "@ + settings.gwz_supplier_bin + " "@;
    assert(start + Seq::<char>::empty() =~= start);
    assert(argv + seq![last] =~= argv.push(last));
    if argv.len() > 0 {
        assert(settings.supplier_notice(Composition::Spawn(argv.push(last)))
            =~= settings.supplier_notice(Composition::Spawn(argv)) + seq![' '] + last);
    }
}

} // verus!
