//! The part of an xlsx file that describes the application and the sheets of
//! the workbook, `docProps/app.xml`.

use vstd::prelude::*;
use crate::text::{decimal, decimal_string};
use crate::xmlwriter::{
    XMLWriter, attributes_view, data_element_text, declaration_text, end_tag_text, start_tag_text,
    written_then,
};

verus! {

/// The properties of a document that this part holds.
pub struct DocProperties {
    pub manager: String,
    pub company: String,
    pub hyperlink_base: String,
}

impl DocProperties {
    /// Properties that are all empty.
    pub fn new() -> (properties: DocProperties)
        ensures
            properties.manager@.len() == 0,
            properties.company@.len() == 0,
            properties.hyperlink_base@.len() == 0,
    {
        DocProperties {
            manager: String::new(),
            company: String::new(),
            hyperlink_base: String::new(),
        }
    }
}

/// The writer of the part, and what the part lists: the headings, each with
/// the number of parts under it, and the names of the parts.
pub struct App {
    pub writer: XMLWriter,
    pub heading_pairs: Vec<(String, u16)>,
    pub table_parts: Vec<String>,
    pub doc_security: u8,
    pub properties: DocProperties,
}

/// An element that holds data and has no attributes.
pub open spec fn element_text(tag: Seq<char>, data: Seq<char>) -> Seq<char> {
    data_element_text(tag, data, Seq::empty())
}

/// A start tag without attributes.
pub open spec fn open_text(tag: Seq<char>) -> Seq<char> {
    start_tag_text(tag, Seq::empty())
}

/// The start tag of the part, with its two namespaces.
pub open spec fn properties_text() -> Seq<char> {
    start_tag_text(
        "Properties"@,
        seq![
            ("xmlns"@, "http://schemas.openxmlformats.org/officeDocument/2006/extended-properties"@),
            ("xmlns:vt"@, "http://schemas.openxmlformats.org/officeDocument/2006/docPropsVTypes"@),
        ],
    )
}

/// A string in a vector.
pub open spec fn vt_lpstr_text(data: Seq<char>) -> Seq<char> {
    element_text("vt:lpstr"@, data)
}

/// A number in a vector.
pub open spec fn vt_i4_text(count: u16) -> Seq<char> {
    element_text("vt:i4"@, decimal(count as nat))
}

/// One heading: its name and its count, each as a variant.
pub open spec fn heading_pair_text(pair: (String, u16)) -> Seq<char> {
    open_text("vt:variant"@) + vt_lpstr_text(pair.0@) + end_tag_text("vt:variant"@) + open_text(
        "vt:variant"@,
    ) + vt_i4_text(pair.1) + end_tag_text("vt:variant"@)
}

/// The headings, in their order.
pub open spec fn heading_pairs_text(pairs: Seq<(String, u16)>) -> Seq<char>
    decreases pairs.len(),
{
    if pairs.len() == 0 {
        Seq::empty()
    } else {
        heading_pairs_text(pairs.drop_last()) + heading_pair_text(pairs.last())
    }
}

/// The vector of the headings: two entries for each heading.
pub open spec fn heading_vector_text(pairs: Seq<(String, u16)>) -> Seq<char> {
    start_tag_text(
        "vt:vector"@,
        seq![("size"@, decimal(2 * pairs.len())), ("baseType"@, "variant"@)],
    ) + heading_pairs_text(pairs) + end_tag_text("vt:vector"@)
}

/// The names of the parts, in their order.
pub open spec fn part_names_text(parts: Seq<String>) -> Seq<char>
    decreases parts.len(),
{
    if parts.len() == 0 {
        Seq::empty()
    } else {
        part_names_text(parts.drop_last()) + vt_lpstr_text(parts.last()@)
    }
}

/// The vector of the names of the parts.
pub open spec fn title_parts_vector_text(parts: Seq<String>) -> Seq<char> {
    start_tag_text(
        "vt:vector"@,
        seq![("size"@, decimal(parts.len())), ("baseType"@, "lpstr"@)],
    ) + part_names_text(parts) + end_tag_text("vt:vector"@)
}

/// The element of the headings.
pub open spec fn heading_pairs_element_text(pairs: Seq<(String, u16)>) -> Seq<char> {
    open_text("HeadingPairs"@) + heading_vector_text(pairs) + end_tag_text("HeadingPairs"@)
}

/// The element of the names of the parts.
pub open spec fn titles_of_parts_text(parts: Seq<String>) -> Seq<char> {
    open_text("TitlesOfParts"@) + title_parts_vector_text(parts) + end_tag_text("TitlesOfParts"@)
}

/// An element that is left out where its data is empty.
pub open spec fn optional_element_text(tag: Seq<char>, data: Seq<char>) -> Seq<char> {
    if data.len() == 0 {
        Seq::empty()
    } else {
        element_text(tag, data)
    }
}

/// The whole part, for what `app` lists.
pub open spec fn app_text(app: App) -> Seq<char> {
    declaration_text() + properties_text() + element_text("Application"@, "Microsoft Excel"@)
        + element_text("DocSecurity"@, decimal(app.doc_security as nat)) + element_text(
        "ScaleCrop"@,
        "false"@,
    ) + heading_pairs_element_text(app.heading_pairs@) + titles_of_parts_text(app.table_parts@)
        + optional_element_text("Manager"@, app.properties.manager@) + element_text(
        "Company"@,
        app.properties.company@,
    ) + element_text("LinksUpToDate"@, "false"@) + element_text("SharedDoc"@, "false"@)
        + optional_element_text("HyperlinkBase"@, app.properties.hyperlink_base@) + element_text(
        "HyperlinksChanged"@,
        "false"@,
    ) + element_text("AppVersion"@, "12.0000"@) + end_tag_text("Properties"@)
}

impl App {
    /// `after` is `before` with `text` written at the end, and nothing else
    /// changed.
    pub open spec fn wrote(before: App, after: App, text: Seq<char>) -> bool {
        &&& after.writer@ == before.writer@ + text
        &&& after.heading_pairs == before.heading_pairs
        &&& after.table_parts == before.table_parts
        &&& after.doc_security == before.doc_security
        &&& after.properties == before.properties
    }

    /// A part without headings and part names, and with empty properties.
    pub fn new() -> (app: App)
        ensures
            app.writer@.len() == 0,
            app.heading_pairs@.len() == 0,
            app.table_parts@.len() == 0,
            app.doc_security == 0,
            app.properties.manager@.len() == 0,
            app.properties.company@.len() == 0,
            app.properties.hyperlink_base@.len() == 0,
    {
        App {
            writer: XMLWriter::new(),
            heading_pairs: Vec::new(),
            table_parts: Vec::new(),
            doc_security: 0,
            properties: DocProperties::new(),
        }
    }

    /// Adds a heading with the number of parts under it.
    pub fn add_heading_pair(&mut self, key: &str, value: u16)
        ensures
            final(self).heading_pairs@.len() == old(self).heading_pairs@.len() + 1,
            final(self).heading_pairs@.drop_last() == old(self).heading_pairs@,
            final(self).heading_pairs@.last().0@ == key@,
            final(self).heading_pairs@.last().1 == value,
            final(self).writer == old(self).writer,
            final(self).table_parts == old(self).table_parts,
            final(self).doc_security == old(self).doc_security,
            final(self).properties == old(self).properties,
    {
        self.heading_pairs.push((key.to_owned(), value));
        assert(self.heading_pairs@.drop_last() =~= old(self).heading_pairs@);
    }

    /// Adds the name of a part.
    pub fn add_part_name(&mut self, part_name: &str)
        ensures
            final(self).table_parts@.len() == old(self).table_parts@.len() + 1,
            final(self).table_parts@.drop_last() == old(self).table_parts@,
            final(self).table_parts@.last()@ == part_name@,
            final(self).writer == old(self).writer,
            final(self).heading_pairs == old(self).heading_pairs,
            final(self).doc_security == old(self).doc_security,
            final(self).properties == old(self).properties,
    {
        self.table_parts.push(part_name.to_owned());
        assert(self.table_parts@.drop_last() =~= old(self).table_parts@);
    }

    /// Writes the start tag of the part.
    pub fn write_properties(&mut self)
        ensures
            App::wrote(*old(self), *final(self), properties_text()),
    {
        let attributes = vec![
            ("xmlns", "http://schemas.openxmlformats.org/officeDocument/2006/extended-properties"),
            ("xmlns:vt", "http://schemas.openxmlformats.org/officeDocument/2006/docPropsVTypes"),
        ];
        self.writer.xml_start_tag("Properties", attributes.as_slice());
        assert(attributes_view(attributes@) =~= seq![
            ("xmlns"@, "http://schemas.openxmlformats.org/officeDocument/2006/extended-properties"@),
            ("xmlns:vt"@, "http://schemas.openxmlformats.org/officeDocument/2006/docPropsVTypes"@),
        ]);
    }

    /// Writes the security level of the document.
    pub fn write_doc_security(&mut self)
        ensures
            App::wrote(
                *old(self),
                *final(self),
                element_text("DocSecurity"@, decimal(old(self).doc_security as nat)),
            ),
    {
        let level = decimal_string(self.doc_security as u128);
        self.writer.xml_data_element_only("DocSecurity", level.as_str());
    }

    /// Writes the headings.
    pub fn write_heading_pairs(&mut self)
        ensures
            App::wrote(
                *old(self),
                *final(self),
                heading_pairs_element_text(old(self).heading_pairs@),
            ),
    {
        self.writer.xml_start_tag_only("HeadingPairs");
        self.write_heading_vector();
        self.writer.xml_end_tag("HeadingPairs");
        assert(self.writer@ =~= old(self).writer@ + heading_pairs_element_text(
            old(self).heading_pairs@,
        ));
    }

    /// Writes the vector of the headings.
    pub fn write_heading_vector(&mut self)
        ensures
            App::wrote(*old(self), *final(self), heading_vector_text(old(self).heading_pairs@)),
    {
        let size = decimal_string(self.heading_pairs.len() as u128 * 2);
        let attributes = vec![("size", size), ("baseType", "variant".to_owned())];
        self.writer.xml_start_tag("vt:vector", attributes.as_slice());
        assert(attributes_view(attributes@) =~= seq![
            ("size"@, decimal(2 * old(self).heading_pairs@.len())),
            ("baseType"@, "variant"@),
        ]);
        let ghost start = self.writer@;
        let mut i: usize = 0;
        while i < self.heading_pairs.len()
            invariant
                i <= self.heading_pairs@.len(),
                App::wrote(
                    *old(self),
                    *self,
                    start_tag_text(
                        "vt:vector"@,
                        seq![
                            ("size"@, decimal(2 * old(self).heading_pairs@.len())),
                            ("baseType"@, "variant"@),
                        ],
                    ) + heading_pairs_text(self.heading_pairs@.take(i as int)),
                ),
            decreases self.heading_pairs@.len() - i,
        {
            let name = self.heading_pairs[i].0.clone();
            let count = self.heading_pairs[i].1;
            let ghost before = self.writer@;
            self.writer.xml_start_tag_only("vt:variant");
            self.write_vt_lpstr(name.as_str());
            self.writer.xml_end_tag("vt:variant");
            self.writer.xml_start_tag_only("vt:variant");
            self.write_vt_i4(count);
            self.writer.xml_end_tag("vt:variant");
            proof {
                let pairs = self.heading_pairs@;
                assert(pairs.take(i + 1).drop_last() =~= pairs.take(i as int));
                assert(pairs.take(i + 1).last() == pairs[i as int]);
                assert(self.writer@ =~= before + heading_pair_text(pairs[i as int]));
                assert(self.writer@ =~= old(self).writer@ + (start_tag_text(
                    "vt:vector"@,
                    seq![
                        ("size"@, decimal(2 * old(self).heading_pairs@.len())),
                        ("baseType"@, "variant"@),
                    ],
                ) + heading_pairs_text(pairs.take(i + 1))));
            }
            i += 1;
        }
        assert(self.heading_pairs@.take(i as int) =~= self.heading_pairs@);
        self.writer.xml_end_tag("vt:vector");
        assert(self.writer@ =~= old(self).writer@ + heading_vector_text(old(self).heading_pairs@));
    }

    /// Writes the names of the parts.
    pub fn write_titles_of_parts(&mut self)
        ensures
            App::wrote(
                *old(self),
                *final(self),
                titles_of_parts_text(old(self).table_parts@),
            ),
    {
        self.writer.xml_start_tag_only("TitlesOfParts");
        self.write_title_parts_vector();
        self.writer.xml_end_tag("TitlesOfParts");
        assert(self.writer@ =~= old(self).writer@ + titles_of_parts_text(old(self).table_parts@));
    }

    /// Writes the vector of the names of the parts.
    pub fn write_title_parts_vector(&mut self)
        ensures
            App::wrote(*old(self), *final(self), title_parts_vector_text(old(self).table_parts@)),
    {
        let size = decimal_string(self.table_parts.len() as u128);
        let attributes = vec![("size", size), ("baseType", "lpstr".to_owned())];
        self.writer.xml_start_tag("vt:vector", attributes.as_slice());
        assert(attributes_view(attributes@) =~= seq![
            ("size"@, decimal(old(self).table_parts@.len())),
            ("baseType"@, "lpstr"@),
        ]);
        let mut i: usize = 0;
        while i < self.table_parts.len()
            invariant
                i <= self.table_parts@.len(),
                App::wrote(
                    *old(self),
                    *self,
                    start_tag_text(
                        "vt:vector"@,
                        seq![
                            ("size"@, decimal(old(self).table_parts@.len())),
                            ("baseType"@, "lpstr"@),
                        ],
                    ) + part_names_text(self.table_parts@.take(i as int)),
                ),
            decreases self.table_parts@.len() - i,
        {
            let name = self.table_parts[i].clone();
            self.write_vt_lpstr(name.as_str());
            proof {
                let parts = self.table_parts@;
                assert(parts.take(i + 1).drop_last() =~= parts.take(i as int));
                assert(parts.take(i + 1).last() == parts[i as int]);
                assert(self.writer@ =~= old(self).writer@ + (start_tag_text(
                    "vt:vector"@,
                    seq![
                        ("size"@, decimal(old(self).table_parts@.len())),
                        ("baseType"@, "lpstr"@),
                    ],
                ) + part_names_text(parts.take(i + 1))));
            }
            i += 1;
        }
        assert(self.table_parts@.take(i as int) =~= self.table_parts@);
        self.writer.xml_end_tag("vt:vector");
        assert(self.writer@ =~= old(self).writer@ + title_parts_vector_text(old(self).table_parts@));
    }

    /// Writes a string of a vector.
    pub fn write_vt_lpstr(&mut self, data: &str)
        ensures
            App::wrote(*old(self), *final(self), vt_lpstr_text(data@)),
    {
        self.writer.xml_data_element_only("vt:lpstr", data);
    }

    /// Writes a number of a vector.
    pub fn write_vt_i4(&mut self, count: u16)
        ensures
            App::wrote(*old(self), *final(self), vt_i4_text(count)),
    {
        let text = decimal_string(count as u128);
        self.writer.xml_data_element_only("vt:i4", text.as_str());
    }

    /// Writes the manager, where one is given.
    pub fn write_manager(&mut self)
        ensures
            App::wrote(
                *old(self),
                *final(self),
                optional_element_text("Manager"@, old(self).properties.manager@),
            ),
    {
        if !self.properties.manager.as_str().is_empty() {
            let manager = self.properties.manager.clone();
            self.writer.xml_data_element_only("Manager", manager.as_str());
        } else {
            assert(self.writer@ =~= old(self).writer@ + Seq::<char>::empty());
        }
    }

    /// Writes the company, also where it is empty.
    pub fn write_company(&mut self)
        ensures
            App::wrote(
                *old(self),
                *final(self),
                element_text("Company"@, old(self).properties.company@),
            ),
    {
        let company = self.properties.company.clone();
        self.writer.xml_data_element_only("Company", company.as_str());
    }

    /// Writes the base of the hyperlinks, where one is given.
    pub fn write_hyperlink_base(&mut self)
        ensures
            App::wrote(
                *old(self),
                *final(self),
                optional_element_text("HyperlinkBase"@, old(self).properties.hyperlink_base@),
            ),
    {
        if !self.properties.hyperlink_base.as_str().is_empty() {
            let base = self.properties.hyperlink_base.clone();
            self.writer.xml_data_element_only("HyperlinkBase", base.as_str());
        } else {
            assert(self.writer@ =~= old(self).writer@ + Seq::<char>::empty());
        }
    }

    /// The name of the application.
    pub fn write_application(&mut self)
        ensures
            App::wrote(*old(self), *final(self), element_text("Application"@, "Microsoft Excel"@)),
    {
        self.writer.xml_data_element_only("Application", "Microsoft Excel");
    }

    /// Thumbnails are scaled, not cropped.
    pub fn write_scale_crop(&mut self)
        ensures
            App::wrote(*old(self), *final(self), element_text("ScaleCrop"@, "false"@)),
    {
        self.writer.xml_data_element_only("ScaleCrop", "false");
    }

    /// The links need no update.
    pub fn write_links_up_to_date(&mut self)
        ensures
            App::wrote(*old(self), *final(self), element_text("LinksUpToDate"@, "false"@)),
    {
        self.writer.xml_data_element_only("LinksUpToDate", "false");
    }

    /// The document is not shared.
    pub fn write_shared_doc(&mut self)
        ensures
            App::wrote(*old(self), *final(self), element_text("SharedDoc"@, "false"@)),
    {
        self.writer.xml_data_element_only("SharedDoc", "false");
    }

    /// The hyperlinks were not changed.
    pub fn write_hyperlinks_changed(&mut self)
        ensures
            App::wrote(*old(self), *final(self), element_text("HyperlinksChanged"@, "false"@)),
    {
        self.writer.xml_data_element_only("HyperlinksChanged", "false");
    }

    /// The version of the application.
    pub fn write_app_version(&mut self)
        ensures
            App::wrote(*old(self), *final(self), element_text("AppVersion"@, "12.0000"@)),
    {
        self.writer.xml_data_element_only("AppVersion", "12.0000");
    }

    /// Writes the whole part.
    pub fn assemble_xml_file(&mut self)
        ensures
            App::wrote(*old(self), *final(self), app_text(*old(self))),
    {
        let ghost start = self.writer@;
        self.writer.xml_declaration();
        let ghost mut written = declaration_text();
        self.write_properties();
        proof {
            written = written_then(start, written, properties_text());
        }
        self.write_application();
        proof {
            written = written_then(
                start,
                written,
                element_text("Application"@, "Microsoft Excel"@),
            );
        }
        self.write_doc_security();
        proof {
            written = written_then(
                start,
                written,
                element_text("DocSecurity"@, decimal(self.doc_security as nat)),
            );
        }
        self.write_scale_crop();
        proof {
            written = written_then(start, written, element_text("ScaleCrop"@, "false"@));
        }
        self.write_heading_pairs();
        proof {
            written = written_then(start, written, heading_pairs_element_text(self.heading_pairs@));
        }
        self.write_titles_of_parts();
        proof {
            written = written_then(start, written, titles_of_parts_text(self.table_parts@));
        }
        self.write_manager();
        proof {
            written = written_then(
                start,
                written,
                optional_element_text("Manager"@, self.properties.manager@),
            );
        }
        self.write_company();
        proof {
            written = written_then(
                start,
                written,
                element_text("Company"@, self.properties.company@),
            );
        }
        self.write_links_up_to_date();
        proof {
            written = written_then(start, written, element_text("LinksUpToDate"@, "false"@));
        }
        self.write_shared_doc();
        proof {
            written = written_then(start, written, element_text("SharedDoc"@, "false"@));
        }
        self.write_hyperlink_base();
        proof {
            written = written_then(
                start,
                written,
                optional_element_text("HyperlinkBase"@, self.properties.hyperlink_base@),
            );
        }
        self.write_hyperlinks_changed();
        proof {
            written = written_then(start, written, element_text("HyperlinksChanged"@, "false"@));
        }
        self.write_app_version();
        proof {
            written = written_then(start, written, element_text("AppVersion"@, "12.0000"@));
        }
        self.writer.xml_end_tag("Properties");
        proof {
            written = written_then(start, written, end_tag_text("Properties"@));
        }
    }
}

} // verus!
