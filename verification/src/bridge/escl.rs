//! The eSCL (AirScan) side of the bridge: the documents the scanner serves
//! and the book-keeping of scan jobs.
use vstd::prelude::*;
use vstd::string::*;

use crate::text::text_eq;

verus! {

/// The capabilities document up to the scanner's UUID.
pub const SCANNER_CAPABILITIES_HEAD: &'static str = r#"<?xml version="1.0" encoding="UTF-8"?>
<scan:ScannerCapabilities xmlns:scan="http://schemas.hp.com/imaging/escl/2011/05/03"
                          xmlns:pwg="http://www.pwg.org/schemas/2010/12/sm">
  <pwg:Version>2.0</pwg:Version>
  <pwg:MakeAndModel>Canon G3010 series</pwg:MakeAndModel>
  <scan:UUID>"#;

/// The capabilities document after the scanner's UUID.
pub const SCANNER_CAPABILITIES_TAIL: &'static str = r#"</scan:UUID>
  <scan:Platen>
    <scan:PlatenInputCaps>
      <scan:MinWidth>0</scan:MinWidth>
      <scan:MinHeight>0</scan:MinHeight>
      <scan:MaxWidth>2550</scan:MaxWidth>
      <scan:MaxHeight>3508</scan:MaxHeight>
      <scan:MaxPhysicalWidth>2550</scan:MaxPhysicalWidth>
      <scan:MaxPhysicalHeight>3508</scan:MaxPhysicalHeight>
      <scan:MaxScanRegions>1</scan:MaxScanRegions>
      <scan:SettingProfiles>
        <scan:SettingProfile>
          <scan:ColorModes>
            <scan:ColorMode>RGB24</scan:ColorMode>
            <scan:ColorMode>Grayscale8</scan:ColorMode>
          </scan:ColorModes>
          <scan:DocumentFormats>
            <pwg:DocumentFormat>image/jpeg</pwg:DocumentFormat>
          </scan:DocumentFormats>
          <scan:SupportedResolutions>
            <scan:DiscreteResolutions>
              <scan:DiscreteResolution><scan:XResolution>75</scan:XResolution><scan:YResolution>75</scan:YResolution></scan:DiscreteResolution>
              <scan:DiscreteResolution><scan:XResolution>150</scan:XResolution><scan:YResolution>150</scan:YResolution></scan:DiscreteResolution>
              <scan:DiscreteResolution><scan:XResolution>300</scan:XResolution><scan:YResolution>300</scan:YResolution></scan:DiscreteResolution>
              <scan:DiscreteResolution><scan:XResolution>600</scan:XResolution><scan:YResolution>600</scan:YResolution></scan:DiscreteResolution>
            </scan:DiscreteResolutions>
          </scan:SupportedResolutions>
        </scan:SettingProfile>
      </scan:SettingProfiles>
      <scan:SupportedIntents>
        <scan:SupportedIntent>Preview</scan:SupportedIntent>
        <scan:SupportedIntent>TextAndGraphic</scan:SupportedIntent>
        <scan:SupportedIntent>Photo</scan:SupportedIntent>
      </scan:SupportedIntents>
    </scan:PlatenInputCaps>
  </scan:Platen>
</scan:ScannerCapabilities>"#;

/// The ScannerCapabilities document of the scanner with this UUID.
pub fn scanner_capabilities_xml(uuid: &str) -> (xml: String)
    ensures
        xml@ == SCANNER_CAPABILITIES_HEAD@ + uuid@ + SCANNER_CAPABILITIES_TAIL@,
{
    let mut xml = String::from_str(SCANNER_CAPABILITIES_HEAD);
    xml.append(uuid);
    xml.append(SCANNER_CAPABILITIES_TAIL);
    xml
}

/// The job list of a status document: present only while processing a job.
pub open spec fn status_jobs_text(state: Seq<char>, job_id: Option<Seq<char>>) -> Seq<char> {
    if state == "Processing"@ && job_id is Some {
        let id = job_id->0;
        "\n  <scan:Jobs>\n    <scan:JobInfo>\n      <pwg:JobUri>/eSCL/ScanJobs/"@ + id
            + "</pwg:JobUri>\n      <pwg:JobUuid>"@ + id
            + "</pwg:JobUuid>\n      <scan:Age>0</scan:Age>\n      <pwg:JobState>Processing</pwg:JobState>\n      <pwg:ImagesCompleted>0</pwg:ImagesCompleted>\n    </scan:JobInfo>\n  </scan:Jobs>"@
    } else {
        seq![]
    }
}

/// The ScannerStatus document for a scanner state, with the job list.
pub open spec fn status_text(state: Seq<char>, job_id: Option<Seq<char>>) -> Seq<char> {
    "<?xml version=\"1.0\" encoding=\"UTF-8\"?>\n<scan:ScannerStatus xmlns:scan=\"http://schemas.hp.com/imaging/escl/2011/05/03\"\n                    xmlns:pwg=\"http://www.pwg.org/schemas/2010/12/sm\">\n  <pwg:Version>2.0</pwg:Version>\n  <pwg:State>"@
        + state + "</pwg:State>"@ + status_jobs_text(state, job_id) + "\n</scan:ScannerStatus>"@
}

/// The view of an optional text.
pub open spec fn opt_text(t: Option<&str>) -> Option<Seq<char>> {
    match t {
        Some(s) => Some(s@),
        None => None,
    }
}

/// The ScannerStatus document: the state, and the job while processing.
pub fn scanner_status_xml(state: &str, job_id: Option<&str>) -> (xml: String)
    ensures
        xml@ == status_text(state@, opt_text(job_id)),
{
    let mut xml = String::from_str(
        "<?xml version=\"1.0\" encoding=\"UTF-8\"?>\n<scan:ScannerStatus xmlns:scan=\"http://schemas.hp.com/imaging/escl/2011/05/03\"\n                    xmlns:pwg=\"http://www.pwg.org/schemas/2010/12/sm\">\n  <pwg:Version>2.0</pwg:Version>\n  <pwg:State>",
    );
    xml.append(state);
    xml.append("</pwg:State>");
    match job_id {
        Some(id) => {
            if text_eq(state, "Processing") {
                xml.append("\n  <scan:Jobs>\n    <scan:JobInfo>\n      <pwg:JobUri>/eSCL/ScanJobs/");
                xml.append(id);
                xml.append("</pwg:JobUri>\n      <pwg:JobUuid>");
                xml.append(id);
                xml.append(
                    "</pwg:JobUuid>\n      <scan:Age>0</scan:Age>\n      <pwg:JobState>Processing</pwg:JobState>\n      <pwg:ImagesCompleted>0</pwg:ImagesCompleted>\n    </scan:JobInfo>\n  </scan:Jobs>",
                );
            }
        },
        None => {},
    }
    xml.append("\n</scan:ScannerStatus>");
    xml
}

/// The `Location` of a created scan job.
pub fn job_location(job_id: &str) -> (loc: String)
    ensures
        loc@ == "/eSCL/ScanJobs/"@ + job_id@,
{
    let mut loc = String::from_str("/eSCL/ScanJobs/");
    loc.append(job_id);
    loc
}


/// The documents of finished jobs: each job's entry overrides earlier ones
/// with the same id.
pub open spec fn job_map(s: Seq<(String, Vec<u8>)>) -> Map<Seq<char>, Seq<u8>>
    decreases s.len(),
{
    if s.len() == 0 {
        Map::empty()
    } else {
        job_map(s.drop_last()).insert(s.last().0@, s.last().1@)
    }
}

/// The bridge's scan jobs: whether a scan runs, which job it serves, and the
/// documents of finished jobs by job id.
pub struct JobBoard {
    scanning: bool,
    active_job: Option<String>,
    jobs: Vec<(String, Vec<u8>)>,
}

impl JobBoard {
    /// Whether a scan is running.
    pub closed spec fn spec_scanning(&self) -> bool {
        self.scanning
    }

    /// The job whose scan is running.
    pub closed spec fn spec_active(&self) -> Option<Seq<char>> {
        match &self.active_job {
            Some(id) => Some(id@),
            None => None,
        }
    }

    /// The documents of finished jobs by job id.
    pub closed spec fn spec_jobs(&self) -> Map<Seq<char>, Seq<u8>> {
        job_map(self.jobs@)
    }

    /// No scan running, no documents.
    pub fn new() -> (b: Self)
        ensures
            !b.spec_scanning(),
            b.spec_active() is None,
            b.spec_jobs() == Map::<Seq<char>, Seq<u8>>::empty(),
    {
        JobBoard { scanning: false, active_job: None, jobs: Vec::new() }
    }

    /// Whether a scan is running.
    pub fn is_scanning(&self) -> (b: bool)
        ensures
            b == self.spec_scanning(),
    {
        self.scanning
    }

    /// A scan starts for `job_id`.
    pub fn start_job(&mut self, job_id: &str)
        ensures
            final(self).spec_scanning(),
            final(self).spec_active() == Some(job_id@),
            final(self).spec_jobs() == old(self).spec_jobs(),
    {
        self.scanning = true;
        self.active_job = Some(String::from_str(job_id));
    }

    /// The scan of `job_id` ends, with its document when it succeeded.
    pub fn finish_job(&mut self, job_id: &str, document: Option<Vec<u8>>)
        ensures
            !final(self).spec_scanning(),
            final(self).spec_active() is None,
            document matches Some(d) ==> final(self).spec_jobs() == old(self).spec_jobs().insert(
                job_id@,
                d@,
            ),
            document is None ==> final(self).spec_jobs() == old(self).spec_jobs(),
    {
        if let Some(d) = document {
            let _ = self.take_document(job_id);
            let ghost mid = self.jobs@;
            let k = String::from_str(job_id);
            self.jobs.push((k, d));
            assert(self.jobs@.drop_last() =~= mid);
            assert(job_map(self.jobs@) == job_map(mid).insert(job_id@, d@));
            assert(job_map(self.jobs@) =~= old(self).spec_jobs().insert(job_id@, d@));
        }
        self.scanning = false;
        self.active_job = None;
    }

    /// Removes and returns the document of `job_id`, if there is one.
    pub fn take_document(&mut self, job_id: &str) -> (doc: Option<Vec<u8>>)
        ensures
            final(self).spec_scanning() == old(self).spec_scanning(),
            final(self).spec_active() == old(self).spec_active(),
            final(self).spec_jobs() == old(self).spec_jobs().remove(job_id@),
            old(self).spec_jobs().contains_key(job_id@) ==> (doc matches Some(d) && d@ == old(
                self,
            ).spec_jobs()[job_id@]),
            !old(self).spec_jobs().contains_key(job_id@) ==> doc is None,
    {
        let ghost orig = self.jobs@;
        let ghost key = job_id@;
        let mut rest: Vec<(String, Vec<u8>)> = Vec::new();
        std::mem::swap(&mut rest, &mut self.jobs);
        let mut found: Option<Vec<u8>> = None;
        let ghost mut i: int = 0;
        while rest.len() > 0
            invariant
                0 <= i <= orig.len(),
                rest@ == orig.skip(i),
                self.scanning == old(self).scanning,
                self.active_job == old(self).active_job,
                orig == old(self).jobs@,
                key == job_id@,
                job_map(self.jobs@) == job_map(orig.take(i)).remove(key),
                job_map(orig.take(i)).contains_key(key) ==> (found matches Some(d) && d@ == job_map(
                    orig.take(i),
                )[key]),
                !job_map(orig.take(i)).contains_key(key) ==> found is None,
            decreases rest.len(),
        {
            let (k, d) = rest.remove(0);
            proof {
                assert(orig.take(i + 1).drop_last() =~= orig.take(i));
                assert(orig.take(i + 1).last() == (k, d));
                assert(job_map(orig.take(i + 1)) == job_map(orig.take(i)).insert(k@, d@));
            }
            if text_eq(k.as_str(), job_id) {
                found = Some(d);
                assert(job_map(orig.take(i + 1)).remove(key) =~= job_map(orig.take(i)).remove(key));
            } else {
                let ghost before = self.jobs@;
                let ghost kv = k@;
                let ghost dv = d@;
                self.jobs.push((k, d));
                assert(self.jobs@.drop_last() =~= before);
                assert(job_map(self.jobs@) == job_map(before).insert(kv, dv));
                assert(job_map(self.jobs@) =~= job_map(orig.take(i + 1)).remove(key));
            }
            proof {
                i = i + 1;
                assert(rest@ =~= orig.skip(i));
            }
        }
        assert(orig.take(i) =~= orig);
        found
    }

    /// The ScannerStatus document: `Processing` with the running job, or `Idle`.
    pub fn status_xml(&self) -> (xml: String)
        ensures
            xml@ == status_text(
                if self.spec_scanning() {
                    "Processing"@
                } else {
                    "Idle"@
                },
                self.spec_active(),
            ),
    {
        let state = if self.scanning {
            "Processing"
        } else {
            "Idle"
        };
        match &self.active_job {
            Some(id) => scanner_status_xml(state, Some(id.as_str())),
            None => scanner_status_xml(state, None),
        }
    }
}

/// A finished job's document is what its job id serves, exactly once: after
/// taking it, the job id serves nothing.
pub proof fn lemma_document_served_once(jobs: Map<Seq<char>, Seq<u8>>, id: Seq<char>, doc: Seq<u8>)
    ensures
        jobs.insert(id, doc).contains_key(id),
        jobs.insert(id, doc)[id] == doc,
        !jobs.insert(id, doc).remove(id).contains_key(id),
{
}

/// Taking the document of one job leaves the documents of all other jobs.
pub proof fn lemma_take_leaves_others(jobs: Map<Seq<char>, Seq<u8>>, id: Seq<char>, other: Seq<char>)
    requires
        other != id,
    ensures
        jobs.remove(id).contains_key(other) == jobs.contains_key(other),
        jobs.contains_key(other) ==> jobs.remove(id)[other] == jobs[other],
{
}

} // verus!
