use vstd::prelude::*;

use crate::models::VulnerabilityReport;

verus! {

/// The reports that the JSON and SBOM formatters render: exactly the
/// `Vulnerable` ones, in their input order.
pub open spec fn vulnerable_of(reports: Seq<VulnerabilityReport>) -> Seq<VulnerabilityReport> {
    reports.filter(|r: VulnerabilityReport| r is Vulnerable)
}

/// Select the `Vulnerable` reports, keeping their order. The formatters
/// that only render vulnerable dependencies consume this selection.
pub fn vulnerable_only(reports: &Vec<VulnerabilityReport>) -> (vulnerable: Vec<
    &VulnerabilityReport,
>)
    ensures
        vulnerable@.map_values(|r: &VulnerabilityReport| *r) == vulnerable_of(reports@),
{
    let mut vulnerable: Vec<&VulnerabilityReport> = Vec::new();
    let n = reports.len();
    let mut idx: usize = 0;
    proof {
        reveal(Seq::filter);
        assert(reports@.subrange(0, 0).filter(|r: VulnerabilityReport| r is Vulnerable) =~= Seq::<
            VulnerabilityReport,
        >::empty());
        assert(vulnerable@.map_values(|r: &VulnerabilityReport| *r) =~= Seq::<
            VulnerabilityReport,
        >::empty());
    }
    while idx < n
        invariant
            idx <= n,
            n == reports@.len(),
            vulnerable@.map_values(|r: &VulnerabilityReport| *r) == vulnerable_of(
                reports@.subrange(0, idx as int),
            ),
        decreases n - idx,
    {
        let ghost prefix = reports@.subrange(0, idx as int);
        let ghost before = vulnerable@;
        let report = &reports[idx];
        let is_vulnerable = match report {
            VulnerabilityReport::Vulnerable { .. } => true,
            _ => false,
        };
        if is_vulnerable {
            vulnerable.push(report);
        }
        proof {
            reveal(Seq::filter);
            let next = reports@.subrange(0, idx as int + 1);
            assert(next.drop_last() =~= prefix);
            assert(next.last() == reports@[idx as int]);
            if is_vulnerable {
                assert(vulnerable@.map_values(|r: &VulnerabilityReport| *r) =~= before.map_values(
                    |r: &VulnerabilityReport| *r,
                ).push(reports@[idx as int]));
            }
        }
        idx += 1;
    }
    proof {
        assert(reports@.subrange(0, n as int) =~= reports@);
    }
    vulnerable
}

} // verus!
